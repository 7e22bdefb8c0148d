//! Word-boundary navigation.
//!
//! Characters fall in two classes only: word characters (alphanumeric) and
//! everything else. Word-left lands at the start of the previous
//! alphanumeric run; word-right lands at the start of the next one.

use vstd::prelude::*;
use crate::editor::{
    Editor, EdModel, ScreenArea, op_after_move, same_except_buffer,
};

verus! {

/// Whether `c` is a word character: the alphanumeric class.
pub uninterp spec fn is_word_char(c: char) -> bool;

/// Relies on char::is_alphanumeric: a pure classification, a function of
/// the character alone.
#[verifier::external_body]
fn check_word_char(c: char) -> (r: bool)
    ensures
        r == is_word_char(c),
{
    c.is_alphanumeric()
}

/// Skip backward from `x` over non-word characters.
pub open spec fn scan_back_nonword(l: Seq<char>, x: int) -> int
    decreases x,
{
    if 0 < x <= l.len() && !is_word_char(l[x - 1]) {
        scan_back_nonword(l, x - 1)
    } else {
        x
    }
}

/// Skip backward from `x` over word characters.
pub open spec fn scan_back_word(l: Seq<char>, x: int) -> int
    decreases x,
{
    if 0 < x <= l.len() && is_word_char(l[x - 1]) {
        scan_back_word(l, x - 1)
    } else {
        x
    }
}

/// Skip forward from `x` over word characters.
pub open spec fn scan_fwd_word(l: Seq<char>, x: int) -> int
    decreases l.len() - x,
{
    if 0 <= x < l.len() && is_word_char(l[x]) {
        scan_fwd_word(l, x + 1)
    } else {
        x
    }
}

/// Skip forward from `x` over non-word characters.
pub open spec fn scan_fwd_nonword(l: Seq<char>, x: int) -> int
    decreases l.len() - x,
{
    if 0 <= x < l.len() && !is_word_char(l[x]) {
        scan_fwd_nonword(l, x + 1)
    } else {
        x
    }
}

/// Where word-left lands: after an optional crossing to the end of the
/// previous line, skip the non-word run and then the word run before the
/// cursor.
pub open spec fn word_left_target(m: EdModel) -> (int, int) {
    let y = if m.cursor_x == 0 {
        m.cursor_y - 1
    } else {
        m.cursor_y
    };
    let x0 = if m.cursor_x == 0 {
        m.lines[m.cursor_y - 1].len() as int
    } else {
        m.cursor_x
    };
    let l = m.lines[y];
    (y, scan_back_word(l, scan_back_nonword(l, x0)))
}

/// Word-left: a no-op at the buffer start; otherwise a movement primitive
/// landing at `word_left_target`.
pub open spec fn op_word_left(m: EdModel, area: ScreenArea, shift: bool) -> EdModel {
    if m.cursor_x == 0 && m.cursor_y == 0 {
        m
    } else {
        let t = word_left_target(m);
        op_after_move(m, EdModel { cursor_y: t.0, cursor_x: t.1, ..m }, area, shift)
    }
}

/// The position word-right scans from: column zero of the next line when
/// the cursor sits at the end of a line, else the cursor itself.
pub open spec fn word_right_start(m: EdModel) -> (int, int) {
    if m.cursor_x == m.cur_line().len() {
        (m.cursor_y + 1, 0)
    } else {
        (m.cursor_y, m.cursor_x)
    }
}

/// Where word-right lands: skip the current word run and the following
/// non-word run; when that failed to advance past a word run starting at
/// the original position, deliberately skip one further word.
pub open spec fn word_right_target(m: EdModel) -> (int, int) {
    let s = word_right_start(m);
    let l = m.lines[s.0];
    let x1 = scan_fwd_nonword(l, scan_fwd_word(l, s.1));
    let x2 = if x1 == s.1 && x1 < l.len() && is_word_char(l[s.1]) {
        scan_fwd_nonword(l, scan_fwd_word(l, x1))
    } else {
        x1
    };
    (s.0, x2)
}

/// Word-right: a no-op at the buffer end; otherwise a movement primitive
/// landing at `word_right_target`.
pub open spec fn op_word_right(m: EdModel, area: ScreenArea, shift: bool) -> EdModel {
    if m.cursor_x == m.cur_line().len() && m.cursor_y == m.lines.len() - 1 {
        m
    } else {
        let t = word_right_target(m);
        op_after_move(m, EdModel { cursor_y: t.0, cursor_x: t.1, ..m }, area, shift)
    }
}

/// Frame predicate: every engine field but the cursor column agrees.
pub open spec fn same_except_cursor_x(a: Editor, b: Editor) -> bool {
    &&& same_except_buffer(
        Editor { cursor_x: 0, ..a },
        Editor { cursor_x: 0, ..b },
    )
    &&& a.buffer == b.buffer
}

impl Editor {
    /// Move to the start of the word before the cursor (crossing to the
    /// previous line at column zero); a no-op at the buffer start.
    pub fn move_cursor_word_left(&mut self, area: ScreenArea, shift: bool)
        requires
            old(self).wf(),
        ensures
            final(self).model() == op_word_left(old(self).model(), area, shift),
            final(self).wf(),
    {
        let ghost m = old(self).model();
        let anchor = (self.cursor_y, self.cursor_x);
        if self.cursor_x == 0 {
            if self.cursor_y > 0 {
                self.cursor_y -= 1;
                self.cursor_x = self.buffer[self.cursor_y].len();
            } else {
                return;
            }
        }
        let ghost l = cursor_line_of(self);
        let ghost x0 = self.cursor_x as int;
        let ghost snap = *self;
        while self.cursor_x > 0 && !check_word_char(self.buffer[self.cursor_y][self.cursor_x - 1])
            invariant
                same_except_cursor_x(*self, snap),
                0 <= self.cursor_x <= x0 <= cursor_line_of(&snap).len(),
                l == cursor_line_of(&snap),
                self.cursor_y < self.buffer@.len(),
                scan_back_nonword(l, x0) == scan_back_nonword(l, self.cursor_x as int),
            decreases self.cursor_x,
        {
            self.cursor_x -= 1;
        }
        proof {
            assert(self.cursor_x as int == scan_back_nonword(l, x0));
        }
        let ghost x1 = self.cursor_x as int;
        while self.cursor_x > 0 && check_word_char(self.buffer[self.cursor_y][self.cursor_x - 1])
            invariant
                same_except_cursor_x(*self, snap),
                0 <= self.cursor_x <= x1 <= cursor_line_of(&snap).len(),
                l == cursor_line_of(&snap),
                self.cursor_y < self.buffer@.len(),
                scan_back_word(l, x1) == scan_back_word(l, self.cursor_x as int),
            decreases self.cursor_x,
        {
            self.cursor_x -= 1;
        }
        proof {
            let t = word_left_target(m);
            assert(self.model() =~~= EdModel { cursor_y: t.0, cursor_x: t.1, ..m });
        }
        self.update_selection_on_move(anchor, shift);
        self.ensure_cursor_in_view(area);
    }

    /// Move to the start of the next word after the cursor (crossing to
    /// the next line at the end of a line); a no-op at the buffer end.
    pub fn move_cursor_word_right(&mut self, area: ScreenArea, shift: bool)
        requires
            old(self).wf(),
        ensures
            final(self).model() == op_word_right(old(self).model(), area, shift),
            final(self).wf(),
    {
        let ghost m = old(self).model();
        let anchor = (self.cursor_y, self.cursor_x);
        let line_len = self.buffer[self.cursor_y].len();
        if self.cursor_x == line_len {
            if self.cursor_y < self.buffer.len() - 1 {
                self.cursor_y += 1;
                self.cursor_x = 0;
            } else {
                return;
            }
        }
        let ghost l = cursor_line_of(self);
        let ghost sx = self.cursor_x as int;
        let ghost snap = *self;
        let n = self.buffer[self.cursor_y].len();
        let orig_x = self.cursor_x;
        self.skip_word_then_nonword(n);
        proof {
            assert(self.cursor_x as int == scan_fwd_nonword(l, scan_fwd_word(l, sx)));
        }
        if orig_x == self.cursor_x && self.cursor_x < n
            && check_word_char(self.buffer[self.cursor_y][orig_x]) {
            self.skip_word_then_nonword(n);
        }
        proof {
            let t = word_right_target(m);
            assert(self.model() =~~= EdModel { cursor_y: t.0, cursor_x: t.1, ..m });
        }
        self.update_selection_on_move(anchor, shift);
        self.ensure_cursor_in_view(area);
    }

    /// Skip the word run at the cursor, then the non-word run after it,
    /// within the cursor's line.
    fn skip_word_then_nonword(&mut self, n: usize)
        requires
            old(self).cursor_y < old(self).buffer@.len(),
            n == old(self).buffer@[old(self).cursor_y as int]@.len(),
            old(self).cursor_x <= n,
        ensures
            same_except_cursor_x(*final(self), *old(self)),
            final(self).cursor_x as int == scan_fwd_nonword(
                cursor_line_of(old(self)),
                scan_fwd_word(cursor_line_of(old(self)), old(self).cursor_x as int),
            ),
            old(self).cursor_x <= final(self).cursor_x <= n,
    {
        let ghost l = cursor_line_of(old(self));
        let ghost sx = old(self).cursor_x as int;
        let ghost snap = *old(self);
        while self.cursor_x < n && check_word_char(self.buffer[self.cursor_y][self.cursor_x])
            invariant
                same_except_cursor_x(*self, snap),
                sx <= self.cursor_x as int <= n,
                self.cursor_y < self.buffer@.len(),
                n == self.buffer@[self.cursor_y as int]@.len(),
                l == cursor_line_of(&snap),
                scan_fwd_word(l, sx) == scan_fwd_word(l, self.cursor_x as int),
            decreases n - self.cursor_x,
        {
            self.cursor_x += 1;
        }
        let ghost x1 = self.cursor_x as int;
        while self.cursor_x < n && !check_word_char(self.buffer[self.cursor_y][self.cursor_x])
            invariant
                same_except_cursor_x(*self, snap),
                x1 <= self.cursor_x as int <= n,
                self.cursor_y < self.buffer@.len(),
                n == self.buffer@[self.cursor_y as int]@.len(),
                l == cursor_line_of(&snap),
                scan_fwd_nonword(l, x1) == scan_fwd_nonword(l, self.cursor_x as int),
            decreases n - self.cursor_x,
        {
            self.cursor_x += 1;
        }
    }
}

/// The character sequence of the line under the cursor.
pub open spec fn cursor_line_of(e: &Editor) -> Seq<char> {
    e.buffer@[e.cursor_y as int]@
}

} // verus!
