//! The laws the library keeps: layout is deterministic, full-page paging
//! covers the whole buffer in finitely many pages and draws every non-newline
//! grapheme exactly once, vertical cursor moves remember the target column,
//! and moves past the edges of the page change nothing.

use crate::layout::{
    drawn_spans, layout_matches, layout_matches_at, lemma_lay, lemma_offset_at_increases,
    lines_model, prints_of, spec_layout, DrawOp, LayoutResult, VisualLine,
};
use crate::nav::{cursor_step, min_col, Command, Cursor};
use crate::text::{is_boundary, offset_at, spec_is_newline, table_wf, Grapheme};
use vstd::prelude::*;

verus! {

/// The spans printed by page after page of full-page layouts, starting at
/// grapheme `k`, each next page starting where the previous one ended.
pub open spec fn pages_prints(gs: Seq<Grapheme>, k: int, width: int, height: int) -> Seq<
    (int, int),
>
    decreases gs.len() - k,
{
    if k < 0 || k >= gs.len() {
        Seq::empty()
    } else {
        let res = spec_layout(gs, k, width, height);
        if k < res.1 <= gs.len() {
            prints_of(res.2) + pages_prints(gs, res.1, width, height)
        } else {
            prints_of(res.2)
        }
    }
}

/// How many full-page layouts it takes to walk from grapheme `k` to the end
/// of the buffer.
pub open spec fn page_count(gs: Seq<Grapheme>, k: int, width: int, height: int) -> int
    decreases gs.len() - k,
{
    if k < 0 || k >= gs.len() {
        0
    } else {
        let res = spec_layout(gs, k, width, height);
        if k < res.1 <= gs.len() {
            1 + page_count(gs, res.1, width, height)
        } else {
            1
        }
    }
}

/// Splitting a range of graphemes splits what it draws.
pub proof fn lemma_drawn_split(gs: Seq<Grapheme>, a: int, b: int, c: int)
    requires
        0 <= a <= b <= c <= gs.len(),
    ensures
        drawn_spans(gs, a, c) == drawn_spans(gs, a, b) + drawn_spans(gs, b, c),
    decreases b - a,
{
    if a == b {
        assert(drawn_spans(gs, a, b) =~= Seq::<(int, int)>::empty());
        assert(drawn_spans(gs, a, b) + drawn_spans(gs, b, c) =~= drawn_spans(gs, b, c));
    } else {
        lemma_drawn_split(gs, a + 1, b, c);
        if !spec_is_newline(gs[a].text@) {
            let head = seq![(gs[a].start as int, gs[a].len as int)];
            assert(head + (drawn_spans(gs, a + 1, b) + drawn_spans(gs, b, c)) =~= (head
                + drawn_spans(gs, a + 1, b)) + drawn_spans(gs, b, c));
        }
    }
}

/// Coverage: paging with full pages from any grapheme boundary reaches the
/// end of the buffer in at most one page per grapheme, and the pages
/// together print exactly the non-newline graphemes from that boundary to
/// the end, in order.
pub proof fn lemma_paging_covers(gs: Seq<Grapheme>, k: int, width: int, height: int)
    requires
        table_wf(gs),
        0 <= k <= gs.len(),
        1 <= width,
        1 <= height,
    ensures
        pages_prints(gs, k, width, height) == drawn_spans(gs, k, gs.len() as int),
        page_count(gs, k, width, height) <= gs.len() - k,
    decreases gs.len() - k,
{
    if k >= gs.len() {
        assert(drawn_spans(gs, k, gs.len() as int) =~= Seq::<(int, int)>::empty());
    } else {
        assert(is_boundary(gs, offset_at(gs, k))) by {
            assert(0 <= k <= gs.len() && offset_at(gs, k) == offset_at(gs, k));
        }
        lemma_lay(gs, k, 0, offset_at(gs, k), Seq::empty(), Seq::empty(), width, height);
        let res = spec_layout(gs, k, width, height);
        lemma_paging_covers(gs, res.1, width, height);
        lemma_drawn_split(gs, k, res.1, gs.len() as int);
        assert(prints_of(Seq::<DrawOp>::empty()) =~= Seq::<(int, int)>::empty());
        assert(Seq::<(int, int)>::empty() + drawn_spans(gs, k, res.1) =~= drawn_spans(
            gs,
            k,
            res.1,
        ));
        assert(pages_prints(gs, k, width, height) == prints_of(res.2) + pages_prints(
            gs,
            res.1,
            width,
            height,
        ));
    }
}

/// Layout is deterministic: two results that lay out the same buffer from
/// the same offset under the same viewport agree on every line, on the next
/// page's offset, and on every rendering instruction.
pub proof fn lemma_layout_deterministic(
    a: LayoutResult,
    b: LayoutResult,
    gs: Seq<Grapheme>,
    off: int,
    width: int,
    height: int,
)
    requires
        table_wf(gs),
        layout_matches(a, gs, off, width, height),
        layout_matches(b, gs, off, width, height),
    ensures
        lines_model(a.lines@) == lines_model(b.lines@),
        a.next_offset == b.next_offset,
        a.ops@ == b.ops@,
{
    let ka = choose|k: int|
        0 <= k <= gs.len() && offset_at(gs, k) == off && layout_matches_at(a, gs, k, width, height);
    let kb = choose|k: int|
        0 <= k <= gs.len() && offset_at(gs, k) == off && layout_matches_at(b, gs, k, width, height);
    if ka < kb {
        lemma_offset_at_increases(gs, ka, kb);
    }
    if kb < ka {
        lemma_offset_at_increases(gs, kb, ka);
    }
    assert(ka == kb);
}

/// Vertical movement remembers the target column: moving down onto a shorter
/// line clamps the displayed column but keeps the target, and moving down
/// again onto a line at least as long as the target restores it.
pub proof fn lemma_target_column_memory(c: Cursor, lines: Seq<VisualLine>)
    requires
        c.row + 2 < lines.len(),
        lines.len() <= usize::MAX,
    ensures
        ({
            let down1 = cursor_step(c, Command::MoveDown, lines);
            let down2 = cursor_step(down1, Command::MoveDown, lines);
            &&& down1.target_column == c.target_column
            &&& down2.target_column == c.target_column
            &&& down1.col == min_col(c.target_column, lines[c.row + 1].length)
            &&& down2.col == min_col(c.target_column, lines[c.row + 2].length)
            &&& c.target_column <= lines[c.row + 2].length ==> down2.col == c.target_column
        }),
{
}

/// Moving up at the top row changes nothing.
pub proof fn lemma_move_up_at_top_is_noop(c: Cursor, lines: Seq<VisualLine>)
    requires
        c.row == 0,
    ensures
        cursor_step(c, Command::MoveUp, lines) == c,
{
}

/// Moving down at the last displayed row changes nothing.
pub proof fn lemma_move_down_at_bottom_is_noop(c: Cursor, lines: Seq<VisualLine>)
    requires
        c.row + 1 >= lines.len(),
    ensures
        cursor_step(c, Command::MoveDown, lines) == c,
{
}

} // verus!
