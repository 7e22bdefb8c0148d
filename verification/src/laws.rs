//! Engine-level laws.
//!
//! Each proof function here states a guarantee of the engine as a whole,
//! over the abstract model and the operations' specifications. The cursor
//! invariant itself needs no law of its own: every operation's contract
//! ends in `wf`, so it holds after any sequence of operations.

use vstd::prelude::*;
use crate::editor::{
    EdModel, ScreenArea, view_fixed, norm_sel, sel_text, op_opened, op_saved, op_insert_char,
    eff_width, vis_height,
};
use crate::text::{join_lines, split_lines, lemma_split_join_round_trip};

verus! {

/// Round trip: serializing a just-loaded document yields exactly the
/// loaded text, for every text. A trailing newline survives as an
/// explicit trailing empty line.
pub proof fn lemma_load_serialize_round_trip(m: EdModel, path: Seq<char>, content: Seq<char>)
    ensures
        join_lines(op_opened(m, path, content).lines) == content,
{
    lemma_split_join_round_trip(content);
}

/// Selection normalization is order-independent: selecting from `a` to
/// `b` and from `b` to `a` cover the same text.
pub proof fn lemma_selection_order_independent(m: EdModel, a: (int, int), b: (int, int))
    ensures
        ({
            let fwd = EdModel { sel_start: Some(a), sel_end: Some(b), ..m };
            let rev = EdModel { sel_start: Some(b), sel_end: Some(a), ..m };
            match (norm_sel(fwd), norm_sel(rev)) {
                (Some(p), Some(q)) => sel_text(m.lines, p.0, p.1) == sel_text(
                    m.lines,
                    q.0,
                    q.1,
                ),
                _ => false,
            }
        }),
{
}

/// The viewport normalization pass is idempotent: run twice with no
/// intervening change, the second run changes nothing. This needs a
/// viewport that can show at least one row and one column; with a
/// degenerate (zero-row or zero-column) text area the pass oscillates.
pub proof fn lemma_viewport_idempotent(m: EdModel, area: ScreenArea)
    requires
        m.wf(),
        vis_height(area) >= 1,
        eff_width(area, m.ln_enabled, m.gutter) >= 1,
    ensures
        view_fixed(view_fixed(m, area), area) == view_fixed(m, area),
{
    let v = view_fixed(m, area);
    assert(view_fixed(v, area) =~= v);
}

/// The dirty flag is clear right after a load.
pub proof fn lemma_clean_after_open(m: EdModel, path: Seq<char>, content: Seq<char>)
    ensures
        !op_opened(m, path, content).dirty(),
{
}

/// The dirty flag is clear right after a successful save.
pub proof fn lemma_clean_after_save(m: EdModel)
    ensures
        !op_saved(m).dirty(),
{
}

/// Inserting a character into a clean engine makes it dirty: the cursor's
/// line grows, so the content no longer matches the baseline.
pub proof fn lemma_insert_makes_dirty(m: EdModel, c: char, area: ScreenArea)
    requires
        m.wf(),
        !m.dirty(),
    ensures
        op_insert_char(m, c, area).dirty(),
{
    let r = op_insert_char(m, c, area);
    assert(r.lines[m.cursor_y].len() == m.cur_line().len() + 1);
    assert(r.lines != r.baseline);
}

} // verus!
