//! The editing engine: buffer, cursor, selection, viewport, clipboard,
//! dirty tracking.
//!
//! Every operation is specified against an abstract model ([`EdModel`]):
//! the document as a sequence of line character-sequences together with
//! cursor, scroll, selection and register state. Each public operation
//! states exactly which model the new state must equal, and each preserves
//! well-formedness ([`EdModel::wf`]): the cursor always addresses a valid
//! position, the buffer is never empty, and the scroll row never points
//! past the last line.

use vstd::prelude::*;
use vstd::pervasive::VecAdditionalExecFns;
use crate::config::Config;
use crate::keys::{ApplicationMode, InputMode};
use crate::text::{
    lines_view, split_lines, join_lines, split_text, join_text, copy_lines, copy_line,
    lines_equal, push_line, push_sub, push_str_chars, push_usize, chars_of_str, spec_nat_str,
    lemma_join_push,
};

verus! {

/// The terminal rectangle given to the editing area, in character cells.
///
/// Two rows and two columns are reserved for the frame; the line-number
/// gutter, when enabled, consumes its configured width plus one column.
#[derive(Clone, Copy, Debug)]
pub struct ScreenArea {
    pub width: u16,
    pub height: u16,
}

/// `a - b`, floored at zero.
pub open spec fn isub0(a: int, b: int) -> int {
    if a >= b {
        a - b
    } else {
        0
    }
}

/// The smaller of `a` and `b`.
pub open spec fn imin(a: int, b: int) -> int {
    if a <= b {
        a
    } else {
        b
    }
}

/// The abstract state of the engine.
#[verifier::ext_equal]
pub struct EdModel {
    /// The document: one character sequence per line; never empty.
    pub lines: Seq<Seq<char>>,
    pub cursor_x: int,
    pub cursor_y: int,
    pub scroll_x: int,
    pub scroll_y: int,
    /// The document contents captured at the last load or save.
    pub baseline: Seq<Seq<char>>,
    pub filename: Option<Seq<char>>,
    pub app_mode: ApplicationMode,
    pub input_mode: InputMode,
    pub vim: bool,
    pub ln_enabled: bool,
    pub gutter: int,
    pub status: Seq<char>,
    pub prompt: Seq<char>,
    pub clipboard: Seq<char>,
    pub sel_start: Option<(int, int)>,
    pub sel_end: Option<(int, int)>,
}

/// A valid position: a row of the document and a column at or before the
/// end of that row's line.
pub open spec fn pos_ok(lines: Seq<Seq<char>>, p: (int, int)) -> bool {
    &&& 0 <= p.0 < lines.len()
    &&& 0 <= p.1 <= lines[p.0].len()
}

impl EdModel {
    /// The invariants that hold even in the middle of an operation, before
    /// the viewport normalization pass has re-clamped the scroll offsets.
    pub open spec fn wf_core(self) -> bool {
        &&& self.lines.len() >= 1
        &&& pos_ok(self.lines, (self.cursor_y, self.cursor_x))
        &&& 0 <= self.scroll_y
        &&& 0 <= self.scroll_x
        &&& 0 <= self.gutter
        &&& (self.sel_start is Some <==> self.sel_end is Some)
        &&& match self.sel_start {
            Some(p) => pos_ok(self.lines, p),
            None => true,
        }
        &&& match self.sel_end {
            Some(p) => pos_ok(self.lines, p),
            None => true,
        }
    }

    /// Well-formedness: the invariants every operation preserves.
    pub open spec fn wf(self) -> bool {
        &&& self.wf_core()
        &&& self.scroll_y < self.lines.len()
    }

    /// The line under the cursor.
    pub open spec fn cur_line(self) -> Seq<char> {
        self.lines[self.cursor_y]
    }

    /// Content differs from the captured baseline.
    pub open spec fn dirty(self) -> bool {
        self.lines != self.baseline
    }
}

// ---------------------------------------------------------------------------
// Status texts
// ---------------------------------------------------------------------------

pub open spec fn msg_normal_mode() -> Seq<char> {
    "-- NORMAL --"@
}

pub open spec fn msg_insert_mode() -> Seq<char> {
    "-- INSERT --"@
}

pub open spec fn msg_help_mode() -> Seq<char> {
    "-- HELP --"@
}

pub open spec fn msg_nano_keys() -> Seq<char> {
    "Ctrl+X Exit | Ctrl+W Save | Ctrl+H Help"@
}

/// The status restored when returning to editing: the mode tag under modal
/// editing, the key summary otherwise.
pub open spec fn msg_editing(vim: bool, input_mode: InputMode) -> Seq<char> {
    if vim {
        match input_mode {
            InputMode::Normal => msg_normal_mode(),
            InputMode::Insert => msg_insert_mode(),
        }
    } else {
        msg_nano_keys()
    }
}

pub open spec fn msg_copied(n: int) -> Seq<char> {
    "Copied "@ + spec_nat_str(n) + " characters."@
}

pub open spec fn msg_cut(n: int) -> Seq<char> {
    "Cut "@ + spec_nat_str(n) + " characters."@
}

pub open spec fn msg_pasted(n: int) -> Seq<char> {
    "Pasted "@ + spec_nat_str(n) + " characters."@
}

pub open spec fn msg_no_copy() -> Seq<char> {
    "No selection to copy."@
}

pub open spec fn msg_no_cut() -> Seq<char> {
    "No selection to cut."@
}

pub open spec fn msg_clipboard_empty() -> Seq<char> {
    "Clipboard is empty."@
}

pub open spec fn msg_no_filename() -> Seq<char> {
    "No filename. Cannot save. (Implement :w <filename>)"@
}

pub open spec fn msg_saved(n: int, name: Seq<char>) -> Seq<char> {
    "Saved "@ + spec_nat_str(n) + " lines to "@ + name
}

pub open spec fn msg_opened(name: Seq<char>) -> Seq<char> {
    "Opened: "@ + name
}

pub open spec fn msg_error_saving(e: Seq<char>) -> Seq<char> {
    "Error saving: "@ + e
}

pub open spec fn msg_error_opening(e: Seq<char>) -> Seq<char> {
    "Error opening file: "@ + e
}

pub open spec fn msg_prompt_exit() -> Seq<char> {
    "Save modified buffer? (Y/N)"@
}

pub open spec fn msg_prompt_discard() -> Seq<char> {
    "Quit without saving? (Y/N)"@
}

// ---------------------------------------------------------------------------
// Viewport
// ---------------------------------------------------------------------------

/// Columns available for text: the area minus the frame (2) and, when line
/// numbers are shown, the gutter plus one separator column.
pub open spec fn eff_width(area: ScreenArea, ln_enabled: bool, gutter: int) -> int {
    isub0(isub0(area.width as int, 2), if ln_enabled { gutter + 1 } else { 0 })
}

/// Rows available for text: the area minus the frame.
pub open spec fn vis_height(area: ScreenArea) -> int {
    isub0(area.height as int, 2)
}

/// Scroll by the minimal amount that brings `cursor` into
/// `[scroll, scroll + visible)`.
pub open spec fn fit_scroll(scroll: int, cursor: int, visible: int) -> int {
    if cursor < scroll {
        cursor
    } else if cursor - scroll >= visible {
        cursor - visible + 1
    } else {
        scroll
    }
}

/// The viewport normalization pass: fit both scroll offsets to the cursor,
/// re-clamp them to the document, and trim the cursor column to its line.
pub open spec fn view_fixed(m: EdModel, area: ScreenArea) -> EdModel {
    let ew = eff_width(area, m.ln_enabled, m.gutter);
    let vh = vis_height(area);
    let sy = imin(fit_scroll(m.scroll_y, m.cursor_y, vh), m.lines.len() - 1);
    let sx = imin(fit_scroll(m.scroll_x, m.cursor_x, ew), isub0(m.cur_line().len() as int, ew));
    let cx = imin(m.cursor_x, m.cur_line().len() as int);
    EdModel { scroll_y: sy, scroll_x: sx, cursor_x: cx, ..m }
}

// ---------------------------------------------------------------------------
// Selection
// ---------------------------------------------------------------------------

pub open spec fn sel_cleared(m: EdModel) -> EdModel {
    EdModel { sel_start: None, sel_end: None, ..m }
}

/// Selection update after a movement: with the extend modifier the anchor
/// is fixed (at the pre-movement cursor if no selection was active) and the
/// active end tracks the cursor; without it any selection collapses.
pub open spec fn sel_updated(m: EdModel, anchor: (int, int), shift: bool) -> EdModel {
    if shift {
        EdModel {
            sel_start: if m.sel_start is Some {
                m.sel_start
            } else {
                Some(anchor)
            },
            sel_end: Some((m.cursor_y, m.cursor_x)),
            ..m
        }
    } else {
        sel_cleared(m)
    }
}

/// The selection endpoints ordered lexicographically by (row, column).
pub open spec fn norm_sel(m: EdModel) -> Option<((int, int), (int, int))> {
    match (m.sel_start, m.sel_end) {
        (Some(s), Some(e)) => {
            if s.0 < e.0 || (s.0 == e.0 && s.1 <= e.1) {
                Some((s, e))
            } else {
                Some((e, s))
            }
        },
        _ => None,
    }
}

/// The pieces of a normalized selection: the start row's suffix, the rows
/// strictly between, and the end row's prefix (or the column slice when the
/// selection stays on one row).
pub open spec fn sel_segments(lines: Seq<Seq<char>>, s: (int, int), e: (int, int)) -> Seq<
    Seq<char>,
> {
    if s.0 == e.0 {
        seq![lines[s.0].subrange(s.1, e.1)]
    } else {
        seq![lines[s.0].skip(s.1)] + lines.subrange(s.0 + 1, e.0) + seq![lines[e.0].take(e.1)]
    }
}

/// The text a normalized selection covers, newline-joined.
pub open spec fn sel_text(lines: Seq<Seq<char>>, s: (int, int), e: (int, int)) -> Seq<char> {
    join_lines(sel_segments(lines, s, e))
}

/// The document with the span from `s` to `e` (normalized) removed: the
/// unaffected prefix of the start row is joined with the unaffected suffix
/// of the end row, and the rows between disappear.
pub open spec fn range_deleted(lines: Seq<Seq<char>>, s: (int, int), e: (int, int)) -> Seq<
    Seq<char>,
> {
    if s.0 == e.0 {
        lines.update(s.0, lines[s.0].take(s.1) + lines[s.0].skip(e.1))
    } else {
        lines.take(s.0) + seq![lines[s.0].take(s.1) + lines[e.0].skip(e.1)] + lines.skip(e.0 + 1)
    }
}

/// Whether position (`row`, `col`) falls inside the normalized selection:
/// at or after its start and strictly before its end, in lexicographic
/// (row, column) order.
pub open spec fn pos_selected(m: EdModel, row: int, col: int) -> bool {
    match norm_sel(m) {
        None => false,
        Some((s, e)) => {
            let after_start = row > s.0 || (row == s.0 && col >= s.1);
            let before_end = row < e.0 || (row == e.0 && col < e.1);
            after_start && before_end
        },
    }
}

/// Deleting the selected text: remove the normalized span, collapse the
/// cursor to its start, drop the selection, then normalize the viewport.
/// Without an active selection nothing changes.
pub open spec fn op_delete_selection(m: EdModel, area: ScreenArea) -> EdModel {
    match norm_sel(m) {
        None => m,
        Some((s, e)) => view_fixed(
            sel_cleared(
                EdModel {
                    lines: range_deleted(m.lines, s, e),
                    cursor_y: s.0,
                    cursor_x: s.1,
                    ..m
                },
            ),
            area,
        ),
    }
}

// ---------------------------------------------------------------------------
// Cursor movement
// ---------------------------------------------------------------------------

pub open spec fn moved_left(m: EdModel) -> EdModel {
    if m.cursor_x > 0 {
        EdModel { cursor_x: m.cursor_x - 1, ..m }
    } else if m.cursor_y > 0 {
        EdModel { cursor_y: m.cursor_y - 1, cursor_x: m.lines[m.cursor_y - 1].len() as int, ..m }
    } else {
        m
    }
}

pub open spec fn moved_right(m: EdModel) -> EdModel {
    if m.cursor_x < m.cur_line().len() {
        EdModel { cursor_x: m.cursor_x + 1, ..m }
    } else if m.cursor_y < m.lines.len() - 1 {
        EdModel { cursor_y: m.cursor_y + 1, cursor_x: 0, ..m }
    } else {
        m
    }
}

pub open spec fn moved_up(m: EdModel) -> EdModel {
    if m.cursor_y > 0 {
        EdModel {
            cursor_y: m.cursor_y - 1,
            cursor_x: imin(m.cursor_x, m.lines[m.cursor_y - 1].len() as int),
            ..m
        }
    } else {
        m
    }
}

pub open spec fn moved_down(m: EdModel) -> EdModel {
    if m.cursor_y < m.lines.len() - 1 {
        EdModel {
            cursor_y: m.cursor_y + 1,
            cursor_x: imin(m.cursor_x, m.lines[m.cursor_y + 1].len() as int),
            ..m
        }
    } else {
        m
    }
}

/// A movement primitive: move, update the selection against the pre-move
/// cursor, then normalize the viewport.
pub open spec fn op_after_move(pre: EdModel, moved: EdModel, area: ScreenArea, shift: bool) -> EdModel {
    view_fixed(sel_updated(moved, (pre.cursor_y, pre.cursor_x), shift), area)
}

pub open spec fn op_move_left(m: EdModel, area: ScreenArea, shift: bool) -> EdModel {
    op_after_move(m, moved_left(m), area, shift)
}

pub open spec fn op_move_right(m: EdModel, area: ScreenArea, shift: bool) -> EdModel {
    op_after_move(m, moved_right(m), area, shift)
}

pub open spec fn op_move_up(m: EdModel, area: ScreenArea, shift: bool) -> EdModel {
    op_after_move(m, moved_up(m), area, shift)
}

pub open spec fn op_move_down(m: EdModel, area: ScreenArea, shift: bool) -> EdModel {
    op_after_move(m, moved_down(m), area, shift)
}

// ---------------------------------------------------------------------------
// Edits
// ---------------------------------------------------------------------------

/// Insert one character at the cursor, clearing any selection.
pub open spec fn op_insert_char(m: EdModel, c: char, area: ScreenArea) -> EdModel {
    let nl = m.cur_line().take(m.cursor_x) + seq![c] + m.cur_line().skip(m.cursor_x);
    view_fixed(
        sel_cleared(
            EdModel { lines: m.lines.update(m.cursor_y, nl), cursor_x: m.cursor_x + 1, ..m },
        ),
        area,
    )
}

/// Split the cursor's line at the cursor; the tail becomes a new line
/// below and the cursor lands at its start.
pub open spec fn op_insert_newline(m: EdModel, area: ScreenArea) -> EdModel {
    let nl = m.lines.update(m.cursor_y, m.cur_line().take(m.cursor_x)).insert(
        m.cursor_y + 1,
        m.cur_line().skip(m.cursor_x),
    );
    view_fixed(
        sel_cleared(EdModel { lines: nl, cursor_y: m.cursor_y + 1, cursor_x: 0, ..m }),
        area,
    )
}

/// Delete one character before the cursor, merging with the previous line
/// at column zero; a no-op at the buffer start. With an active selection,
/// delete that instead.
pub open spec fn op_delete_backward(m: EdModel, area: ScreenArea) -> EdModel {
    if m.sel_start is Some {
        op_delete_selection(m, area)
    } else if m.cursor_x > 0 {
        let nl = m.cur_line().take(m.cursor_x - 1) + m.cur_line().skip(m.cursor_x);
        view_fixed(
            EdModel { lines: m.lines.update(m.cursor_y, nl), cursor_x: m.cursor_x - 1, ..m },
            area,
        )
    } else if m.cursor_y > 0 {
        let merged = m.lines[m.cursor_y - 1] + m.cur_line();
        view_fixed(
            EdModel {
                lines: m.lines.update(m.cursor_y - 1, merged).remove(m.cursor_y),
                cursor_y: m.cursor_y - 1,
                cursor_x: m.lines[m.cursor_y - 1].len() as int,
                ..m
            },
            area,
        )
    } else {
        view_fixed(m, area)
    }
}

/// Delete the character under the cursor, merging with the next line at
/// the end of a line; a no-op at the buffer end. With an active selection,
/// delete that instead.
pub open spec fn op_delete_forward(m: EdModel, area: ScreenArea) -> EdModel {
    if m.sel_start is Some {
        op_delete_selection(m, area)
    } else if m.cursor_x < m.cur_line().len() {
        let nl = m.cur_line().take(m.cursor_x) + m.cur_line().skip(m.cursor_x + 1);
        view_fixed(EdModel { lines: m.lines.update(m.cursor_y, nl), ..m }, area)
    } else if m.cursor_y < m.lines.len() - 1 {
        let merged = m.cur_line() + m.lines[m.cursor_y + 1];
        view_fixed(
            EdModel { lines: m.lines.update(m.cursor_y, merged).remove(m.cursor_y + 1), ..m },
            area,
        )
    } else {
        view_fixed(m, area)
    }
}

// ---------------------------------------------------------------------------
// Clipboard, paste, load and save
// ---------------------------------------------------------------------------

/// Copy: capture the selected text and report its character count, or
/// report that nothing is selected without touching the register.
pub open spec fn op_copy(m: EdModel) -> EdModel {
    match norm_sel(m) {
        Some((s, e)) => {
            let t = sel_text(m.lines, s, e);
            EdModel { clipboard: t, status: msg_copied(t.len() as int), ..m }
        },
        None => EdModel { status: msg_no_copy(), ..m },
    }
}

/// Cut: copy, then delete the selected range.
pub open spec fn op_cut(m: EdModel, area: ScreenArea) -> EdModel {
    match norm_sel(m) {
        Some((s, e)) => {
            let t = sel_text(m.lines, s, e);
            EdModel {
                status: msg_cut(t.len() as int),
                ..op_delete_selection(EdModel { clipboard: t, ..m }, area)
            }
        },
        None => EdModel { status: msg_no_cut(), ..m },
    }
}

/// The document and cursor after splicing `text` in at the cursor: the
/// first segment extends the line's prefix, interior segments become new
/// lines, and the line's suffix follows the last segment.
pub open spec fn spliced(m: EdModel, text: Seq<char>) -> EdModel {
    let segs = split_lines(text);
    let pre = m.cur_line().take(m.cursor_x);
    let post = m.cur_line().skip(m.cursor_x);
    if segs.len() == 1 {
        EdModel {
            lines: m.lines.update(m.cursor_y, pre + segs[0] + post),
            cursor_x: m.cursor_x + segs[0].len(),
            ..m
        }
    } else {
        EdModel {
            lines: m.lines.take(m.cursor_y) + seq![pre + segs[0]] + segs.subrange(
                1,
                segs.len() - 1,
            ) + seq![segs.last() + post] + m.lines.skip(m.cursor_y + 1),
            cursor_y: m.cursor_y + segs.len() - 1,
            cursor_x: segs.last().len() as int,
            ..m
        }
    }
}

/// Insert possibly multi-line text at the cursor, first deleting any
/// active selection, then normalizing the viewport.
pub open spec fn op_insert_text(m: EdModel, text: Seq<char>, area: ScreenArea) -> EdModel {
    let base = if m.sel_start is Some {
        op_delete_selection(m, area)
    } else {
        m
    };
    view_fixed(spliced(base, text), area)
}

/// Paste the clipboard at the cursor and report the character count, or
/// report an empty clipboard.
pub open spec fn op_paste(m: EdModel, area: ScreenArea) -> EdModel {
    if m.clipboard.len() > 0 {
        EdModel {
            status: msg_pasted(m.clipboard.len() as int),
            ..op_insert_text(m, m.clipboard, area)
        }
    } else {
        EdModel { status: msg_clipboard_empty(), ..m }
    }
}

/// The state after loading `content` from `path`: the document is the
/// split content, everything is reset to the origin, and the baseline is
/// re-captured (so the engine is clean).
pub open spec fn op_opened(m: EdModel, path: Seq<char>, content: Seq<char>) -> EdModel {
    EdModel {
        lines: split_lines(content),
        baseline: split_lines(content),
        filename: Some(path),
        cursor_x: 0,
        cursor_y: 0,
        scroll_x: 0,
        scroll_y: 0,
        sel_start: None,
        sel_end: None,
        status: if !m.vim {
            msg_opened(path)
        } else {
            m.status
        },
        ..m
    }
}

pub open spec fn opt_name(f: Option<Seq<char>>) -> Seq<char> {
    match f {
        Some(s) => s,
        None => Seq::empty(),
    }
}

/// The state after a successful save: the baseline is re-captured (so the
/// engine is clean) and the status reports the line count and file.
pub open spec fn op_saved(m: EdModel) -> EdModel {
    EdModel {
        baseline: m.lines,
        status: msg_saved(m.lines.len() as int, opt_name(m.filename)),
        ..m
    }
}

// ---------------------------------------------------------------------------
// The engine
// ---------------------------------------------------------------------------

/// The engine state. Mutate it only through the engine's operations;
/// each requires and preserves `wf`.
pub struct Editor {
    pub buffer: Vec<Vec<char>>,
    pub cursor_x: usize,
    pub cursor_y: usize,
    pub scroll_x: usize,
    pub scroll_y: usize,
    pub baseline: Vec<Vec<char>>,
    pub filename: Option<Vec<char>>,
    pub application_mode: ApplicationMode,
    pub input_mode: InputMode,
    pub vim_enabled: bool,
    pub line_numbers_enabled: bool,
    pub gutter_width: u16,
    pub status_message: Vec<char>,
    pub prompt_message: Vec<char>,
    pub clipboard: Vec<char>,
    pub selection_start: Option<(usize, usize)>,
    pub selection_end: Option<(usize, usize)>,
}

/// Frame predicate: every engine field but the buffer agrees.
pub open spec fn same_except_buffer(a: Editor, b: Editor) -> bool {
    &&& a.cursor_x == b.cursor_x
    &&& a.cursor_y == b.cursor_y
    &&& a.scroll_x == b.scroll_x
    &&& a.scroll_y == b.scroll_y
    &&& a.baseline == b.baseline
    &&& a.filename == b.filename
    &&& a.application_mode == b.application_mode
    &&& a.input_mode == b.input_mode
    &&& a.vim_enabled == b.vim_enabled
    &&& a.line_numbers_enabled == b.line_numbers_enabled
    &&& a.gutter_width == b.gutter_width
    &&& a.status_message == b.status_message
    &&& a.prompt_message == b.prompt_message
    &&& a.clipboard == b.clipboard
    &&& a.selection_start == b.selection_start
    &&& a.selection_end == b.selection_end
}

pub open spec fn pos_view(p: Option<(usize, usize)>) -> Option<(int, int)> {
    match p {
        Some(q) => Some((q.0 as int, q.1 as int)),
        None => None,
    }
}

impl Editor {
    /// The abstract state this engine value represents.
    pub open spec fn model(self) -> EdModel {
        EdModel {
            lines: lines_view(self.buffer@),
            cursor_x: self.cursor_x as int,
            cursor_y: self.cursor_y as int,
            scroll_x: self.scroll_x as int,
            scroll_y: self.scroll_y as int,
            baseline: lines_view(self.baseline@),
            filename: match self.filename {
                Some(f) => Some(f@),
                None => None,
            },
            app_mode: self.application_mode,
            input_mode: self.input_mode,
            vim: self.vim_enabled,
            ln_enabled: self.line_numbers_enabled,
            gutter: self.gutter_width as int,
            status: self.status_message@,
            prompt: self.prompt_message@,
            clipboard: self.clipboard@,
            sel_start: pos_view(self.selection_start),
            sel_end: pos_view(self.selection_end),
        }
    }

    pub open spec fn wf(self) -> bool {
        self.model().wf()
    }

    /// A fresh engine over `config`: one empty line, cursor at the origin,
    /// clean baseline, and the initial mode chosen by the modal flag.
    pub fn new(config: &Config) -> (r: Editor)
        ensures
            r.model().lines == seq![Seq::<char>::empty()],
            r.model().baseline == seq![Seq::<char>::empty()],
            r.model().cursor_x == 0 && r.model().cursor_y == 0,
            r.model().scroll_x == 0 && r.model().scroll_y == 0,
            r.model().filename is None,
            r.model().app_mode is Editing,
            r.model().input_mode == (if config.editor_behavior.vim {
                InputMode::Normal
            } else {
                InputMode::Insert
            }),
            r.model().vim == config.editor_behavior.vim,
            r.model().ln_enabled == config.main_section.line_numbers.enabled,
            r.model().gutter == config.main_section.line_numbers.gutter_width as int,
            r.model().status == msg_editing(config.editor_behavior.vim, r.model().input_mode),
            r.model().prompt == Seq::<char>::empty(),
            r.model().clipboard == Seq::<char>::empty(),
            r.model().sel_start is None && r.model().sel_end is None,
            !r.model().dirty(),
            r.wf(),
    {
        let vim = config.editor_behavior.vim;
        let mut buffer: Vec<Vec<char>> = Vec::new();
        buffer.push(Vec::new());
        let mut baseline: Vec<Vec<char>> = Vec::new();
        baseline.push(Vec::new());
        let status_message: Vec<char> = if vim {
            chars_of_str("-- NORMAL --")
        } else {
            chars_of_str("Ctrl+X Exit | Ctrl+W Save | Ctrl+H Help")
        };
        let r = Editor {
            buffer,
            cursor_x: 0,
            cursor_y: 0,
            scroll_x: 0,
            scroll_y: 0,
            baseline,
            filename: None,
            application_mode: ApplicationMode::Editing,
            input_mode: if vim {
                InputMode::Normal
            } else {
                InputMode::Insert
            },
            vim_enabled: vim,
            line_numbers_enabled: config.main_section.line_numbers.enabled,
            gutter_width: config.main_section.line_numbers.gutter_width,
            status_message,
            prompt_message: Vec::new(),
            clipboard: Vec::new(),
            selection_start: None,
            selection_end: None,
        };
        proof {
            assert(r.model().lines =~= seq![Seq::<char>::empty()]);
            assert(r.model().baseline =~= seq![Seq::<char>::empty()]);
        }
        r
    }

    /// Drop any selection.
    pub fn clear_selection(&mut self)
        ensures
            final(self).model() == sel_cleared(old(self).model()),
    {
        self.selection_start = None;
        self.selection_end = None;
        proof {
            assert(final(self).model() =~~= sel_cleared(old(self).model()));
        }
    }

    /// The selection endpoints in normalized (start <= end) order.
    pub fn get_normalized_selection(&self) -> (r: Option<((usize, usize), (usize, usize))>)
        ensures
            r is Some <==> norm_sel(self.model()) is Some,
            match r {
                Some(p) => norm_sel(self.model()) == Some(
                    (
                        ((p.0.0 as int, p.0.1 as int)),
                        ((p.1.0 as int, p.1.1 as int)),
                    ),
                ),
                None => true,
            },
    {
        match (self.selection_start, self.selection_end) {
            (Some(start), Some(end)) => {
                if start.0 < end.0 || (start.0 == end.0 && start.1 <= end.1) {
                    Some((start, end))
                } else {
                    Some((end, start))
                }
            },
            _ => None,
        }
    }

    /// Whether the character cell at (`row`, `col`) lies inside the
    /// selection, for highlighting.
    pub fn is_position_selected(&self, row: usize, col: usize) -> (r: bool)
        ensures
            r == pos_selected(self.model(), row as int, col as int),
    {
        match self.get_normalized_selection() {
            None => false,
            Some(((sr, sc), (er, ec))) => {
                let after_start = row > sr || (row == sr && col >= sc);
                let before_end = row < er || (row == er && col < ec);
                after_start && before_end
            },
        }
    }

    /// Fix the anchor (at `anchor` if no selection is active) and track the
    /// cursor when extending; collapse the selection otherwise.
    pub fn update_selection_on_move(&mut self, anchor: (usize, usize), shift: bool)
        ensures
            final(self).model() == sel_updated(
                old(self).model(),
                (anchor.0 as int, anchor.1 as int),
                shift,
            ),
    {
        if shift {
            if self.selection_start.is_none() {
                self.selection_start = Some(anchor);
            }
            self.selection_end = Some((self.cursor_y, self.cursor_x));
        } else {
            self.selection_start = None;
            self.selection_end = None;
        }
        proof {
            assert(final(self).model() =~~= sel_updated(
                old(self).model(),
                (anchor.0 as int, anchor.1 as int),
                shift,
            ));
        }
    }

    /// `a - b`, floored at zero.
    pub(crate) fn sat_sub(a: usize, b: usize) -> (r: usize)
        ensures
            r as int == isub0(a as int, b as int),
    {
        if a >= b {
            a - b
        } else {
            0
        }
    }

    /// The viewport normalization pass. Pure recomputation: idempotent
    /// while the state does not change otherwise.
    pub fn ensure_cursor_in_view(&mut self, area: ScreenArea)
        requires
            old(self).model().wf_core(),
        ensures
            final(self).model() == view_fixed(old(self).model(), area),
            final(self).wf(),
    {
        let gut: usize = if self.line_numbers_enabled {
            self.gutter_width as usize + 1
        } else {
            0
        };
        let effective_width = Self::sat_sub(Self::sat_sub(area.width as usize, 2), gut);
        let visible_height = Self::sat_sub(area.height as usize, 2);
        let nrows = self.buffer.len();
        let line_len = self.buffer[self.cursor_y].len();

        if self.cursor_y < self.scroll_y {
            self.scroll_y = self.cursor_y;
        } else if self.cursor_y - self.scroll_y >= visible_height {
            self.scroll_y = self.cursor_y - visible_height + 1;
        }

        let max_scroll_x = Self::sat_sub(line_len, effective_width);
        if self.cursor_x < self.scroll_x {
            self.scroll_x = self.cursor_x;
        } else if self.cursor_x - self.scroll_x >= effective_width {
            let base = self.cursor_x - effective_width;
            self.scroll_x = if base < max_scroll_x {
                base + 1
            } else {
                max_scroll_x
            };
        }

        let max_row = nrows - 1;
        if self.scroll_y > max_row {
            self.scroll_y = max_row;
        }
        if self.scroll_x > max_scroll_x {
            self.scroll_x = max_scroll_x;
        }
        if self.cursor_x > line_len {
            self.cursor_x = line_len;
        }
        proof {
            assert(final(self).model() =~~= view_fixed(old(self).model(), area));
        }
    }

    /// Move one column left, crossing to the end of the previous line at
    /// column zero; a no-op at the buffer start.
    pub fn move_cursor_left(&mut self, area: ScreenArea, shift: bool)
        requires
            old(self).wf(),
        ensures
            final(self).model() == op_move_left(old(self).model(), area, shift),
            final(self).wf(),
    {
        let anchor = (self.cursor_y, self.cursor_x);
        if self.cursor_x > 0 {
            self.cursor_x -= 1;
        } else if self.cursor_y > 0 {
            self.cursor_y -= 1;
            self.cursor_x = self.buffer[self.cursor_y].len();
        }
        proof {
            assert(self.model() =~~= moved_left(old(self).model()));
        }
        self.update_selection_on_move(anchor, shift);
        self.ensure_cursor_in_view(area);
    }

    /// Move one column right, crossing to the start of the next line at
    /// the end of a line; a no-op at the buffer end.
    pub fn move_cursor_right(&mut self, area: ScreenArea, shift: bool)
        requires
            old(self).wf(),
        ensures
            final(self).model() == op_move_right(old(self).model(), area, shift),
            final(self).wf(),
    {
        let anchor = (self.cursor_y, self.cursor_x);
        if self.cursor_x < self.buffer[self.cursor_y].len() {
            self.cursor_x += 1;
        } else if self.cursor_y < self.buffer.len() - 1 {
            self.cursor_y += 1;
            self.cursor_x = 0;
        }
        proof {
            assert(self.model() =~~= moved_right(old(self).model()));
        }
        self.update_selection_on_move(anchor, shift);
        self.ensure_cursor_in_view(area);
    }

    /// Move one row up, clamping the column to the target line; a no-op on
    /// the first row.
    pub fn move_cursor_up(&mut self, area: ScreenArea, shift: bool)
        requires
            old(self).wf(),
        ensures
            final(self).model() == op_move_up(old(self).model(), area, shift),
            final(self).wf(),
    {
        let anchor = (self.cursor_y, self.cursor_x);
        if self.cursor_y > 0 {
            self.cursor_y -= 1;
            let len = self.buffer[self.cursor_y].len();
            if self.cursor_x > len {
                self.cursor_x = len;
            }
        }
        proof {
            assert(self.model() =~~= moved_up(old(self).model()));
        }
        self.update_selection_on_move(anchor, shift);
        self.ensure_cursor_in_view(area);
    }

    /// Move one row down, clamping the column to the target line; a no-op
    /// on the last row.
    pub fn move_cursor_down(&mut self, area: ScreenArea, shift: bool)
        requires
            old(self).wf(),
        ensures
            final(self).model() == op_move_down(old(self).model(), area, shift),
            final(self).wf(),
    {
        let anchor = (self.cursor_y, self.cursor_x);
        if self.cursor_y < self.buffer.len() - 1 {
            self.cursor_y += 1;
            let len = self.buffer[self.cursor_y].len();
            if self.cursor_x > len {
                self.cursor_x = len;
            }
        }
        proof {
            assert(self.model() =~~= moved_down(old(self).model()));
        }
        self.update_selection_on_move(anchor, shift);
        self.ensure_cursor_in_view(area);
    }

    /// Insert `c` at the cursor and advance one column.
    pub fn insert_char(&mut self, c: char, area: ScreenArea)
        requires
            old(self).wf(),
        ensures
            final(self).model() == op_insert_char(old(self).model(), c, area),
            final(self).wf(),
    {
        self.clear_selection();
        let x = self.cursor_x;
        self.buffer[self.cursor_y].insert(x, c);
        let new_len = self.buffer[self.cursor_y].len();
        proof {
            assert(x + 1 <= new_len);
        }
        self.cursor_x += 1;
        proof {
            let m = old(self).model();
            assert(m.cur_line().insert(m.cursor_x, c) =~= m.cur_line().take(m.cursor_x)
                + seq![c] + m.cur_line().skip(m.cursor_x));
            assert(self.model() =~~= sel_cleared(
                EdModel {
                    lines: m.lines.update(
                        m.cursor_y,
                        m.cur_line().take(m.cursor_x) + seq![c] + m.cur_line().skip(m.cursor_x),
                    ),
                    cursor_x: m.cursor_x + 1,
                    ..m
                },
            ));
        }
        self.ensure_cursor_in_view(area);
    }

    /// Split the cursor's line at the cursor; the tail becomes the next
    /// line and the cursor lands at its start.
    pub fn insert_newline(&mut self, area: ScreenArea)
        requires
            old(self).wf(),
        ensures
            final(self).model() == op_insert_newline(old(self).model(), area),
            final(self).wf(),
    {
        self.clear_selection();
        let x = self.cursor_x;
        let rest = self.buffer[self.cursor_y].split_off(x);
        let nrows = self.buffer.len();
        proof {
            assert(self.cursor_y < nrows);
        }
        self.buffer.insert(self.cursor_y + 1, rest);
        self.cursor_y += 1;
        self.cursor_x = 0;
        proof {
            let m = old(self).model();
            assert(lines_view(self.buffer@) =~~= m.lines.update(
                m.cursor_y,
                m.cur_line().take(m.cursor_x),
            ).insert(m.cursor_y + 1, m.cur_line().skip(m.cursor_x)));
            assert(self.model() =~~= sel_cleared(
                EdModel {
                    lines: m.lines.update(m.cursor_y, m.cur_line().take(m.cursor_x)).insert(
                        m.cursor_y + 1,
                        m.cur_line().skip(m.cursor_x),
                    ),
                    cursor_y: m.cursor_y + 1,
                    cursor_x: 0,
                    ..m
                },
            ));
        }
        self.ensure_cursor_in_view(area);
    }

    /// Delete the character before the cursor (merging lines at column
    /// zero), or the active selection if there is one.
    pub fn delete_char_backward(&mut self, area: ScreenArea)
        requires
            old(self).wf(),
        ensures
            final(self).model() == op_delete_backward(old(self).model(), area),
            final(self).wf(),
    {
        if self.selection_start.is_some() {
            self.delete_selected_text(area);
            return;
        }
        if self.cursor_x > 0 {
            let x = self.cursor_x;
            self.buffer[self.cursor_y].remove(x - 1);
            self.cursor_x -= 1;
            proof {
                let m = old(self).model();
                assert(m.cur_line().remove(m.cursor_x - 1) =~= m.cur_line().take(m.cursor_x - 1)
                    + m.cur_line().skip(m.cursor_x));
                assert(self.model() =~~= EdModel {
                    lines: m.lines.update(
                        m.cursor_y,
                        m.cur_line().take(m.cursor_x - 1) + m.cur_line().skip(m.cursor_x),
                    ),
                    cursor_x: m.cursor_x - 1,
                    ..m
                });
            }
        } else if self.cursor_y > 0 {
            let cur = self.buffer.remove(self.cursor_y);
            self.cursor_y -= 1;
            self.cursor_x = self.buffer[self.cursor_y].len();
            push_line(&mut self.buffer[self.cursor_y], &cur);
            proof {
                let m = old(self).model();
                let merged = m.lines[m.cursor_y - 1] + m.cur_line();
                assert(lines_view(self.buffer@) =~~= m.lines.update(m.cursor_y - 1, merged).remove(
                    m.cursor_y,
                ));
                assert(self.model() =~~= EdModel {
                    lines: m.lines.update(m.cursor_y - 1, merged).remove(m.cursor_y),
                    cursor_y: m.cursor_y - 1,
                    cursor_x: m.lines[m.cursor_y - 1].len() as int,
                    ..m
                });
            }
        }
        self.ensure_cursor_in_view(area);
    }

    /// Delete the character under the cursor (merging with the next line
    /// at the end of a line), or the active selection if there is one.
    pub fn delete_char_forward(&mut self, area: ScreenArea)
        requires
            old(self).wf(),
        ensures
            final(self).model() == op_delete_forward(old(self).model(), area),
            final(self).wf(),
    {
        if self.selection_start.is_some() {
            self.delete_selected_text(area);
            return;
        }
        let line_len = self.buffer[self.cursor_y].len();
        let nrows = self.buffer.len();
        if self.cursor_x < line_len {
            let x = self.cursor_x;
            self.buffer[self.cursor_y].remove(x);
            proof {
                let m = old(self).model();
                assert(m.cur_line().remove(m.cursor_x) =~= m.cur_line().take(m.cursor_x)
                    + m.cur_line().skip(m.cursor_x + 1));
                assert(self.model() =~~= EdModel {
                    lines: m.lines.update(
                        m.cursor_y,
                        m.cur_line().take(m.cursor_x) + m.cur_line().skip(m.cursor_x + 1),
                    ),
                    ..m
                });
            }
        } else if self.cursor_y < nrows - 1 {
            let next = self.buffer.remove(self.cursor_y + 1);
            push_line(&mut self.buffer[self.cursor_y], &next);
            proof {
                let m = old(self).model();
                let merged = m.cur_line() + m.lines[m.cursor_y + 1];
                assert(lines_view(self.buffer@) =~~= m.lines.update(m.cursor_y, merged).remove(
                    m.cursor_y + 1,
                ));
                assert(self.model() =~~= EdModel {
                    lines: m.lines.update(m.cursor_y, merged).remove(m.cursor_y + 1),
                    ..m
                });
            }
        }
        self.ensure_cursor_in_view(area);
    }

    /// Delete the normalized selected range, collapsing the cursor to its
    /// start; nothing happens without an active selection.
    pub fn delete_selected_text(&mut self, area: ScreenArea)
        requires
            old(self).wf(),
        ensures
            final(self).model() == op_delete_selection(old(self).model(), area),
            final(self).wf(),
    {
        let ghost m = old(self).model();
        match self.get_normalized_selection() {
            None => {},
            Some(((sr, sc), (er, ec))) => {
                proof {
                    assert(pos_ok(m.lines, (sr as int, sc as int)));
                    assert(pos_ok(m.lines, (er as int, ec as int)));
                    assert(sr < er || (sr == er && sc <= ec));
                }
                if sr == er {
                    let suffix = self.buffer[sr].split_off(ec);
                    self.buffer[sr].truncate(sc);
                    push_line(&mut self.buffer[sr], &suffix);
                    proof {
                        assert(lines_view(self.buffer@) =~~= range_deleted(
                            m.lines,
                            (sr as int, sc as int),
                            (er as int, ec as int),
                        ));
                    }
                } else {
                    let mut merged: Vec<char> = Vec::new();
                    push_sub(&mut merged, &self.buffer[sr], 0, sc);
                    let er_len = self.buffer[er].len();
                    push_sub(&mut merged, &self.buffer[er], ec, er_len);
                    proof {
                        assert(merged@ =~= m.lines[sr as int].take(sc as int)
                            + m.lines[er as int].skip(ec as int));
                    }
                    self.buffer.set(sr, merged);
                    let ghost base = lines_view(self.buffer@);
                    let ghost snap = *self;
                    let mut k: usize = 0;
                    proof {
                        assert(lines_view(self.buffer@) =~= base.take(sr + 1) + base.skip(
                            sr + 1 + k,
                        ));
                    }
                    while k < er - sr
                        invariant
                            sr < er < base.len(),
                            k <= er - sr,
                            same_except_buffer(*self, snap),
                            self.buffer@.len() == base.len() - k,
                            lines_view(self.buffer@) =~= base.take(sr + 1) + base.skip(
                                sr + 1 + k,
                            ),
                        decreases er - sr - k,
                    {
                        let ghost before = lines_view(self.buffer@);
                        self.buffer.remove(sr + 1);
                        proof {
                            assert(lines_view(self.buffer@) =~= before.remove(sr + 1));
                            assert(lines_view(self.buffer@) =~= base.take(sr + 1) + base.skip(
                                sr + 1 + k + 1,
                            ));
                        }
                        k += 1;
                    }
                    proof {
                        assert(base.take(sr + 1) + base.skip(er + 1) =~~= range_deleted(
                            m.lines,
                            (sr as int, sc as int),
                            (er as int, ec as int),
                        ));
                    }
                }
                self.cursor_y = sr;
                self.cursor_x = sc;
                self.clear_selection();
                proof {
                    let s = (sr as int, sc as int);
                    let e = (er as int, ec as int);
                    assert(norm_sel(m) == Some((s, e)));
                    assert(lines_view(self.buffer@) =~~= range_deleted(m.lines, s, e));
                    assert(self.model() =~~= sel_cleared(
                        EdModel {
                            lines: range_deleted(m.lines, s, e),
                            cursor_y: s.0,
                            cursor_x: s.1,
                            ..m
                        },
                    ));
                }
                self.ensure_cursor_in_view(area);
                proof {
                    assert(final(self).model() =~~= op_delete_selection(m, area));
                }
            },
        }
    }

    /// The text the selection covers, in normalized order, newline-joined;
    /// nothing without an active selection.
    pub fn get_selected_text(&self) -> (r: Option<Vec<char>>)
        requires
            self.wf(),
        ensures
            match (r, norm_sel(self.model())) {
                (Some(t), Some(p)) => t@ == sel_text(self.model().lines, p.0, p.1),
                (None, None) => true,
                _ => false,
            },
    {
        let ghost m = self.model();
        match self.get_normalized_selection() {
            None => None,
            Some(((sr, sc), (er, ec))) => {
                proof {
                    assert(pos_ok(m.lines, (sr as int, sc as int)));
                    assert(pos_ok(m.lines, (er as int, ec as int)));
                    assert(sr < er || (sr == er && sc <= ec));
                }
                let ghost segs = sel_segments(m.lines, (sr as int, sc as int), (er as int, ec as int));
                let mut out: Vec<char> = Vec::new();
                if sr == er {
                    push_sub(&mut out, &self.buffer[sr], sc, ec);
                    proof {
                        assert(join_lines(segs) == segs[0]);
                        assert(out@ =~= sel_text(m.lines, (sr as int, sc as int), (er as int, ec as int)));
                    }
                } else {
                    let sr_len = self.buffer[sr].len();
                    push_sub(&mut out, &self.buffer[sr], sc, sr_len);
                    proof {
                        assert(segs.len() == er - sr + 1);
                        assert(segs[0] =~= m.lines[sr as int].skip(sc as int));
                        assert(out@ =~= segs[0]);
                        assert(segs.take(1) =~= seq![segs[0]]);
                        assert(join_lines(segs.take(1)) == segs[0]);
                    }
                    let mut rr: usize = sr + 1;
                    while rr < er
                        invariant
                            sr < rr <= er < m.lines.len(),
                            m == self.model(),
                            self.wf(),
                            segs == sel_segments(m.lines, (sr as int, sc as int), (er as int, ec as int)),
                            sc <= m.lines[sr as int].len(),
                            ec <= m.lines[er as int].len(),
                            segs.len() == er - sr + 1,
                            out@ == join_lines(segs.take(rr - sr)),
                        decreases er - rr,
                    {
                        out.push('\n');
                        push_line(&mut out, &self.buffer[rr]);
                        proof {
                            lemma_join_push(segs.take(rr - sr), segs[rr - sr]);
                            assert(segs[rr - sr] =~= m.lines[rr as int]);
                            assert(segs.take(rr - sr).push(segs[rr - sr]) =~= segs.take(
                                rr - sr + 1,
                            ));
                        }
                        rr += 1;
                    }
                    out.push('\n');
                    push_sub(&mut out, &self.buffer[er], 0, ec);
                    proof {
                        lemma_join_push(segs.take(er - sr), segs[er - sr]);
                        assert(segs[er - sr] =~= m.lines[er as int].take(ec as int));
                        assert(segs.take(er - sr).push(segs[er - sr]) =~= segs);
                        assert(out@ =~= join_lines(segs));
                    }
                }
                Some(out)
            },
        }
    }

    /// Copy the selection into the clipboard register and report the
    /// character count; report when nothing is selected.
    pub fn copy_selection(&mut self)
        requires
            old(self).wf(),
        ensures
            final(self).model() == op_copy(old(self).model()),
            final(self).wf(),
    {
        let ghost m = old(self).model();
        match self.get_selected_text() {
            Some(t) => {
                let n = t.len();
                self.clipboard = t;
                let mut mv = chars_of_str("Copied ");
                push_usize(&mut mv, n);
                push_str_chars(&mut mv, " characters.");
                self.status_message = mv;
                proof {
                    assert(final(self).model() =~~= op_copy(m));
                }
            },
            None => {
                self.status_message = chars_of_str("No selection to copy.");
                proof {
                    assert(final(self).model() =~~= op_copy(m));
                }
            },
        }
    }

    /// Cut: copy the selection, then delete it.
    pub fn cut_selection(&mut self, area: ScreenArea)
        requires
            old(self).wf(),
        ensures
            final(self).model() == op_cut(old(self).model(), area),
            final(self).wf(),
    {
        let ghost m = old(self).model();
        match self.get_selected_text() {
            Some(t) => {
                let n = t.len();
                self.clipboard = t;
                proof {
                    assert(self.model() =~~= EdModel {
                        clipboard: sel_text(m.lines, norm_sel(m).unwrap().0, norm_sel(m).unwrap().1),
                        ..m
                    });
                }
                self.delete_selected_text(area);
                let mut mv = chars_of_str("Cut ");
                push_usize(&mut mv, n);
                push_str_chars(&mut mv, " characters.");
                self.status_message = mv;
                proof {
                    assert(final(self).model() =~~= op_cut(m, area));
                }
            },
            None => {
                self.status_message = chars_of_str("No selection to cut.");
                proof {
                    assert(final(self).model() =~~= op_cut(m, area));
                }
            },
        }
    }

    /// Splice (possibly multi-line) text in at the cursor, replacing any
    /// active selection.
    #[verifier::rlimit(60)]
    pub fn insert_text_at_cursor(&mut self, text: &Vec<char>, area: ScreenArea)
        requires
            old(self).wf(),
        ensures
            final(self).model() == op_insert_text(old(self).model(), text@, area),
            final(self).wf(),
    {
        if self.selection_start.is_some() {
            self.delete_selected_text(area);
        }
        let ghost m1 = self.model();
        proof {
            assert(m1 == if old(self).model().sel_start is Some {
                op_delete_selection(old(self).model(), area)
            } else {
                old(self).model()
            });
        }
        let segs = split_text(text);
        let ghost segsv = split_lines(text@);
        proof {
            assert(segs@.len() == segsv.len());
            assert forall|j: int| 0 <= j < segs@.len() implies segs@[j]@ == segsv[j] by {
                assert(lines_view(segs@)[j] == segsv[j]);
            }
        }
        let y = self.cursor_y;
        let x = self.cursor_x;
        let rest = self.buffer[y].split_off(x);
        proof {
            assert(rest@ =~= m1.cur_line().skip(m1.cursor_x));
        }
        push_line(&mut self.buffer[y], &segs[0]);
        let ghost pre = m1.cur_line().take(m1.cursor_x);
        let ghost post = m1.cur_line().skip(m1.cursor_x);
        let ghost lines_a = m1.lines.update(m1.cursor_y, pre + segsv[0]);
        proof {
            assert(lines_view(self.buffer@) =~~= lines_a);
        }
        let n = segs.len();
        if n > 1 {
            let mut i: usize = 1;
            proof {
                assert(lines_view(self.buffer@) =~= lines_a.take(y + 1) + segsv.subrange(
                    1,
                    1,
                ) + lines_a.skip(y + 1));
            }
            let ghost snap = *self;
            while i < n - 1
                invariant
                    1 <= i <= n - 1,
                    2 <= n == segsv.len(),
                    segsv == split_lines(text@),
                    forall|j: int| 0 <= j < segs@.len() ==> segs@[j]@ == segsv[j],
                    segs@.len() == n,
                    y == m1.cursor_y,
                    y + 1 <= lines_a.len(),
                    same_except_buffer(*self, snap),
                    self.buffer@.len() == lines_a.len() + i - 1,
                    lines_view(self.buffer@) =~= lines_a.take(y + 1) + segsv.subrange(
                        1,
                        i as int,
                    ) + lines_a.skip(y + 1),
                decreases n - i,
            {
                let row = copy_line(&segs[i]);
                let cur_len = self.buffer.len();
                proof {
                    assert(y + i <= cur_len);
                }
                let ghost before = lines_view(self.buffer@);
                self.buffer.insert(y + i, row);
                proof {
                    assert(lines_view(self.buffer@) =~= before.insert(y + i, row@));
                    assert(lines_view(self.buffer@) =~= lines_a.take(y + 1) + segsv.subrange(
                        1,
                        i + 1,
                    ) + lines_a.skip(y + 1));
                }
                i += 1;
            }
            let k = n - 1;
            let mut lastline = copy_line(&segs[k]);
            push_line(&mut lastline, &rest);
            let cur_len = self.buffer.len();
            proof {
                assert(y + k <= cur_len);
            }
            let ghost before = lines_view(self.buffer@);
            self.buffer.insert(y + k, lastline);
            self.cursor_y = y + k;
            self.cursor_x = segs[k].len();
            proof {
                assert(lines_view(self.buffer@) =~= before.insert(y + k, segsv.last() + post));
                assert(lines_a.take(y + 1) =~= m1.lines.take(y as int) + seq![pre + segsv[0]]);
                assert(lines_a.skip(y + 1) =~= m1.lines.skip(y + 1));
                assert(lines_view(self.buffer@) =~~= m1.lines.take(m1.cursor_y) + seq![
                    pre + segsv[0],
                ] + segsv.subrange(1, segsv.len() - 1) + seq![segsv.last() + post]
                    + m1.lines.skip(m1.cursor_y + 1));
                assert(self.model() =~~= spliced(m1, text@));
            }
        } else {
            let cx = self.buffer[y].len();
            self.cursor_x = cx;
            push_line(&mut self.buffer[y], &rest);
            proof {
                assert(pre + segsv[0] + post =~= (pre + segsv[0]) + post);
                assert(lines_view(self.buffer@) =~~= m1.lines.update(
                    m1.cursor_y,
                    pre + segsv[0] + post,
                ));
                assert(self.model().lines == spliced(m1, text@).lines);
                assert(pre.len() == m1.cursor_x);
                assert(self.model().cursor_x == spliced(m1, text@).cursor_x);
                assert(self.model().cursor_y == spliced(m1, text@).cursor_y);
                assert(self.model() =~~= spliced(m1, text@));
            }
        }
        self.ensure_cursor_in_view(area);
    }

    /// Paste the clipboard at the cursor (replacing any selection) and
    /// report the character count; report when the clipboard is empty.
    pub fn paste(&mut self, area: ScreenArea)
        requires
            old(self).wf(),
        ensures
            final(self).model() == op_paste(old(self).model(), area),
            final(self).wf(),
    {
        let ghost m = old(self).model();
        if self.clipboard.len() > 0 {
            let content = copy_line(&self.clipboard);
            let n = content.len();
            self.insert_text_at_cursor(&content, area);
            let mut mv = chars_of_str("Pasted ");
            push_usize(&mut mv, n);
            push_str_chars(&mut mv, " characters.");
            self.status_message = mv;
            proof {
                assert(final(self).model() =~~= op_paste(m, area));
            }
        } else {
            self.status_message = chars_of_str("Clipboard is empty.");
            proof {
                assert(final(self).model() =~~= op_paste(m, area));
            }
        }
    }

    /// Content differs from the baseline captured at the last load or
    /// save.
    pub fn is_dirty(&self) -> (r: bool)
        ensures
            r == self.model().dirty(),
    {
        !lines_equal(&self.buffer, &self.baseline)
    }

    /// The document as flat text: lines joined with `'\n'`, no trailing
    /// newline.
    pub fn serialize(&self) -> (r: Vec<char>)
        requires
            self.wf(),
        ensures
            r@ == join_lines(self.model().lines),
    {
        join_text(&self.buffer)
    }

    /// Replace the document with `content` read from `path`: split into
    /// lines, reset cursor, scroll and selection, re-capture the baseline.
    pub fn open_loaded(&mut self, path: Vec<char>, content: &Vec<char>)
        requires
            old(self).wf(),
        ensures
            final(self).model() == op_opened(old(self).model(), path@, content@),
            final(self).wf(),
            !final(self).model().dirty(),
    {
        let ghost m = old(self).model();
        let lines = split_text(content);
        self.buffer = lines;
        self.baseline = split_text(content);
        if !self.vim_enabled {
            let mut mv = chars_of_str("Opened: ");
            push_line(&mut mv, &path);
            self.status_message = mv;
        }
        self.filename = Some(path);
        self.cursor_x = 0;
        self.cursor_y = 0;
        self.scroll_x = 0;
        self.scroll_y = 0;
        self.selection_start = None;
        self.selection_end = None;
        proof {
            assert(final(self).model() =~~= op_opened(m, path@, content@));
        }
    }

    /// Record that the caller could not read a file: only the status text
    /// changes.
    pub fn note_open_failed(&mut self, err: &Vec<char>)
        requires
            old(self).wf(),
        ensures
            final(self).model() == (EdModel {
                status: msg_error_opening(err@),
                ..old(self).model()
            }),
            final(self).wf(),
    {
        let mut mv = chars_of_str("Error opening file: ");
        push_line(&mut mv, err);
        self.status_message = mv;
        proof {
            assert(final(self).model() =~~= (EdModel {
                status: msg_error_opening(err@),
                ..old(self).model()
            }));
        }
    }

    /// Record a successful save of the serialized buffer: re-capture the
    /// baseline (the engine is clean again) and report lines and file.
    pub fn save_succeeded(&mut self)
        requires
            old(self).wf(),
            old(self).model().filename is Some,
        ensures
            final(self).model() == op_saved(old(self).model()),
            final(self).wf(),
            !final(self).model().dirty(),
    {
        let ghost m = old(self).model();
        self.baseline = copy_lines(&self.buffer);
        let n = self.buffer.len();
        let mut mv = chars_of_str("Saved ");
        push_usize(&mut mv, n);
        push_str_chars(&mut mv, " lines to ");
        match &self.filename {
            Some(f) => {
                push_line(&mut mv, f);
            },
            None => {
                proof {
                    assert(false);
                }
            },
        }
        self.status_message = mv;
        proof {
            assert(final(self).model() =~~= op_saved(m));
        }
    }

    /// Record a failed save: report the error and return to editing (a
    /// pending save prompt is abandoned); the dirty state is untouched.
    pub fn save_failed(&mut self, err: &Vec<char>)
        requires
            old(self).wf(),
        ensures
            final(self).model() == (EdModel {
                status: msg_error_saving(err@),
                app_mode: ApplicationMode::Editing,
                ..old(self).model()
            }),
            final(self).wf(),
    {
        let mut mv = chars_of_str("Error saving: ");
        push_line(&mut mv, err);
        self.status_message = mv;
        self.application_mode = ApplicationMode::Editing;
        proof {
            assert(final(self).model() =~~= (EdModel {
                status: msg_error_saving(err@),
                app_mode: ApplicationMode::Editing,
                ..old(self).model()
            }));
        }
    }
}

} // verus!
