//! The layout engine: from a start offset, break the buffer's graphemes into
//! at most `height` visual lines of at most `width` cells, wrapping at the
//! cell grid and ending lines at embedded newlines.

use crate::text::{
    is_boundary, is_newline, offset_at, spec_is_newline, table_wf, Grapheme, TextBuffer,
};
use vstd::prelude::*;

verus! {

/// One rendered row: the byte offset at which it begins and the number of
/// grapheme cells it occupies.
#[derive(Clone, Copy, Debug, PartialEq, Eq, Structural)]
pub struct VisualLine {
    pub start_offset: usize,
    pub length: usize,
}

/// One rendering instruction: draw the grapheme at bytes
/// `start .. start + len` at the current position, or advance to the next
/// visual row.
#[derive(Clone, Copy, Debug, PartialEq, Eq, Structural)]
pub enum DrawOp {
    Print { start: usize, len: usize },
    NextLine,
}

/// What one layout call produces: the visual lines (at least one, at most
/// `height`), the byte offset at which the next page begins, and the
/// instruction stream that renders the page.
#[derive(Debug, PartialEq, Eq)]
pub struct LayoutResult {
    pub lines: Vec<VisualLine>,
    pub next_offset: usize,
    pub ops: Vec<DrawOp>,
}

/// A visual line as a (start offset, cell count) pair.
pub open spec fn line_model(vl: VisualLine) -> (int, int) {
    (vl.start_offset as int, vl.length as int)
}

pub open spec fn lines_model(ls: Seq<VisualLine>) -> Seq<(int, int)> {
    ls.map_values(|vl: VisualLine| line_model(vl))
}

/// The layout scan, one grapheme at a time. `i` is the next grapheme, `col`
/// the cells already drawn on the current line, `cur_start` the byte offset
/// at which the current line began, `lines` and `ops` what the scan has
/// produced so far. Returns the visual lines, the index of the first
/// grapheme of the next page, and the instruction stream.
pub open spec fn lay(
    gs: Seq<Grapheme>,
    i: int,
    col: int,
    cur_start: int,
    lines: Seq<(int, int)>,
    ops: Seq<DrawOp>,
    width: int,
    height: int,
) -> (Seq<(int, int)>, int, Seq<DrawOp>)
    decreases gs.len() - i, (if col >= width { 1int } else { 0int }),
{
    if i < 0 || i >= gs.len() {
        // the buffer is exhausted: close out the final, possibly partial line
        (lines.push((cur_start, col)), gs.len() as int, ops)
    } else if spec_is_newline(gs[i].text@) {
        // a newline ends the line without being drawn
        let closed = lines.push((cur_start, col));
        if closed.len() >= height {
            (closed, i + 1, ops)
        } else {
            lay(
                gs,
                i + 1,
                0,
                gs[i].start + gs[i].len,
                closed,
                ops.push(DrawOp::NextLine),
                width,
                height,
            )
        }
    } else if col >= width {
        // the line is full: wrap, and the same grapheme starts the next line
        let closed = lines.push((cur_start, width));
        if closed.len() >= height || width < 1 {
            (closed, i, ops)
        } else {
            lay(gs, i, 0, gs[i].start as int, closed, ops.push(DrawOp::NextLine), width, height)
        }
    } else {
        // draw the grapheme on the current line
        lay(
            gs,
            i + 1,
            col + 1,
            cur_start,
            lines,
            ops.push(DrawOp::Print { start: gs[i].start, len: gs[i].len }),
            width,
            height,
        )
    }
}

/// The layout of the page that starts at grapheme `k` (`k == gs.len()` for
/// the end of the buffer).
pub open spec fn spec_layout(gs: Seq<Grapheme>, k: int, width: int, height: int) -> (
    Seq<(int, int)>,
    int,
    Seq<DrawOp>,
) {
    lay(gs, k, 0, offset_at(gs, k), Seq::empty(), Seq::empty(), width, height)
}

/// `r` is the layout of the page of `gs` that starts at grapheme index `k`.
pub open spec fn layout_matches_at(
    r: LayoutResult,
    gs: Seq<Grapheme>,
    k: int,
    width: int,
    height: int,
) -> bool {
    let res = spec_layout(gs, k, width, height);
    &&& lines_model(r.lines@) == res.0
    &&& r.next_offset == offset_at(gs, res.1)
    &&& r.ops@ == res.2
}

/// `r` is the layout of the page of `gs` that starts at byte offset `off`.
pub open spec fn layout_matches(
    r: LayoutResult,
    gs: Seq<Grapheme>,
    off: int,
    width: int,
    height: int,
) -> bool {
    exists|k: int|
        0 <= k <= gs.len() && offset_at(gs, k) == off && layout_matches_at(r, gs, k, width, height)
}

/// The byte spans printed by an instruction stream, in order.
pub open spec fn prints_of(ops: Seq<DrawOp>) -> Seq<(int, int)>
    decreases ops.len(),
{
    if ops.len() == 0 {
        Seq::empty()
    } else {
        let rest = prints_of(ops.drop_last());
        match ops.last() {
            DrawOp::Print { start, len } => rest.push((start as int, len as int)),
            DrawOp::NextLine => rest,
        }
    }
}

/// The byte spans of the non-newline graphemes with indices in `[from, to)`:
/// what a layout that consumes that range draws.
pub open spec fn drawn_spans(gs: Seq<Grapheme>, from: int, to: int) -> Seq<(int, int)>
    decreases to - from,
{
    if from < 0 || from >= to || to > gs.len() {
        Seq::empty()
    } else if spec_is_newline(gs[from].text@) {
        drawn_spans(gs, from + 1, to)
    } else {
        seq![(gs[from].start as int, gs[from].len as int)] + drawn_spans(gs, from + 1, to)
    }
}

/// A grapheme ends where the next one (or the buffer) begins.
pub proof fn lemma_grapheme_end(gs: Seq<Grapheme>, i: int)
    requires
        table_wf(gs),
        0 <= i < gs.len(),
    ensures
        gs[i].start + gs[i].len == offset_at(gs, i + 1),
{
}

/// Boundary offsets grow strictly with the grapheme index.
pub proof fn lemma_offset_at_increases(gs: Seq<Grapheme>, a: int, b: int)
    requires
        table_wf(gs),
        0 <= a < b <= gs.len(),
    ensures
        offset_at(gs, a) < offset_at(gs, b),
    decreases b - a,
{
    lemma_grapheme_end(gs, a);
    if a + 1 < b {
        lemma_offset_at_increases(gs, a + 1, b);
    }
}

proof fn lemma_lines_model_push(s: Seq<VisualLine>, v: VisualLine)
    ensures
        lines_model(s.push(v)) == lines_model(s).push(line_model(v)),
{
    assert(lines_model(s.push(v)) =~= lines_model(s).push(line_model(v)));
}

proof fn lemma_prints_push(ops: Seq<DrawOp>, op: DrawOp)
    ensures
        prints_of(ops.push(op)) == (match op {
            DrawOp::Print { start, len } => prints_of(ops).push((start as int, len as int)),
            DrawOp::NextLine => prints_of(ops),
        }),
{
    assert(ops.push(op).drop_last() =~= ops);
    assert(ops.push(op).last() == op);
}

/// All the properties of one layout scan, by induction over `lay`: the scan
/// consumes at least one grapheme when it starts inside the buffer, stays
/// within it, extends the accumulated lines with lines that start at
/// boundaries and fit the width, and prints exactly the non-newline
/// graphemes it consumed.
pub proof fn lemma_lay(
    gs: Seq<Grapheme>,
    i: int,
    col: int,
    cur_start: int,
    lines: Seq<(int, int)>,
    ops: Seq<DrawOp>,
    width: int,
    height: int,
)
    requires
        table_wf(gs),
        0 <= i <= gs.len(),
        1 <= width,
        1 <= height,
        0 <= col <= width,
        lines.len() < height,
        0 <= cur_start,
        cur_start + col <= offset_at(gs, i),
        is_boundary(gs, cur_start),
    ensures
        ({
            let res = lay(gs, i, col, cur_start, lines, ops, width, height);
            &&& i <= res.1 <= gs.len()
            &&& (i < gs.len() && col < width) ==> res.1 > i
            &&& lines.len() < res.0.len() <= height
            &&& res.0.subrange(0, lines.len() as int) == lines
            &&& forall|j: int|
                lines.len() <= j < res.0.len() ==> {
                    &&& 0 <= (#[trigger] res.0[j]).1 <= width
                    &&& 0 <= res.0[j].0
                    &&& is_boundary(gs, res.0[j].0)
                }
            &&& res.0[lines.len() as int].0 == cur_start
            &&& cur_start + col <= offset_at(gs, res.1)
            &&& prints_of(res.2) == prints_of(ops) + drawn_spans(gs, i, res.1)
        }),
    decreases gs.len() - i, (if col >= width { 1int } else { 0int }),
{
    let res = lay(gs, i, col, cur_start, lines, ops, width, height);
    if i == gs.len() {
        // exhausted: the final line closes out
        let closed = lines.push((cur_start, col));
        assert(res.0 == closed && res.1 == gs.len() && res.2 == ops);
        assert(closed.subrange(0, lines.len() as int) =~= lines);
        assert(drawn_spans(gs, i, i) =~= Seq::<(int, int)>::empty());
        assert(prints_of(ops) + drawn_spans(gs, i, i) =~= prints_of(ops));
    } else if spec_is_newline(gs[i].text@) {
        let closed = lines.push((cur_start, col));
        lemma_grapheme_end(gs, i);
        if closed.len() >= height {
            assert(res.0 == closed && res.1 == i + 1 && res.2 == ops);
            assert(closed.subrange(0, lines.len() as int) =~= lines);
            assert(drawn_spans(gs, i + 1, i + 1) =~= Seq::<(int, int)>::empty());
            assert(drawn_spans(gs, i, i + 1) =~= Seq::<(int, int)>::empty());
            assert(prints_of(ops) + drawn_spans(gs, i, i + 1) =~= prints_of(ops));
        } else {
            let cs2 = gs[i].start + gs[i].len;
            assert(is_boundary(gs, cs2)) by {
                assert(offset_at(gs, i + 1) == cs2);
            }
            lemma_lay(gs, i + 1, 0, cs2, closed, ops.push(DrawOp::NextLine), width, height);
            lemma_prints_push(ops, DrawOp::NextLine);
            let res2 = lay(gs, i + 1, 0, cs2, closed, ops.push(DrawOp::NextLine), width, height);
            assert(res == res2);
            assert(res.0.subrange(0, lines.len() as int) =~= lines) by {
                assert(res.0.subrange(0, closed.len() as int) == closed);
                assert(forall|j: int|
                    0 <= j < lines.len() ==> res.0[j] == closed[j] && closed[j] == lines[j]);
            }
            assert(res.0[lines.len() as int] == closed[lines.len() as int]);
            // the newline itself is consumed but not drawn
            assert(drawn_spans(gs, i, res.1) == drawn_spans(gs, i + 1, res.1));
        }
    } else if col >= width {
        let closed = lines.push((cur_start, width));
        if closed.len() >= height {
            assert(res.0 == closed && res.1 == i && res.2 == ops);
            assert(closed.subrange(0, lines.len() as int) =~= lines);
            assert(drawn_spans(gs, i, i) =~= Seq::<(int, int)>::empty());
            assert(prints_of(ops) + drawn_spans(gs, i, i) =~= prints_of(ops));
        } else {
            let cs2 = gs[i].start as int;
            assert(is_boundary(gs, cs2)) by {
                assert(offset_at(gs, i) == cs2);
            }
            lemma_lay(gs, i, 0, cs2, closed, ops.push(DrawOp::NextLine), width, height);
            lemma_prints_push(ops, DrawOp::NextLine);
            let res2 = lay(gs, i, 0, cs2, closed, ops.push(DrawOp::NextLine), width, height);
            assert(res == res2);
            assert(res.0.subrange(0, lines.len() as int) =~= lines) by {
                assert(res.0.subrange(0, closed.len() as int) == closed);
                assert(forall|j: int|
                    0 <= j < lines.len() ==> res.0[j] == closed[j] && closed[j] == lines[j]);
            }
            assert(res.0[lines.len() as int] == closed[lines.len() as int]);
        }
    } else {
        let op = DrawOp::Print { start: gs[i].start, len: gs[i].len };
        lemma_grapheme_end(gs, i);
        lemma_lay(gs, i + 1, col + 1, cur_start, lines, ops.push(op), width, height);
        lemma_prints_push(ops, op);
        let res2 = lay(gs, i + 1, col + 1, cur_start, lines, ops.push(op), width, height);
        assert(res == res2);
        // the drawn grapheme joins the front of what the rest of the scan draws
        assert(res.1 > i);
        assert(drawn_spans(gs, i, res.1) == seq![
            (gs[i].start as int, gs[i].len as int),
        ] + drawn_spans(gs, i + 1, res.1));
        assert(prints_of(res.2) == prints_of(ops.push(op)) + drawn_spans(gs, i + 1, res.1));
        assert(prints_of(ops.push(op)) == prints_of(ops).push((gs[i].start as int, gs[i].len as int)));
        assert(prints_of(ops) + drawn_spans(gs, i, res.1) =~= prints_of(ops).push(
            (gs[i].start as int, gs[i].len as int),
        ) + drawn_spans(gs, i + 1, res.1));
    }
}

/// Find the grapheme index that begins at byte offset `off`.
fn index_at_offset(buf: &TextBuffer, off: usize) -> (k: usize)
    requires
        buf.wf(),
        is_boundary(buf.graphemes@, off as int),
    ensures
        k <= buf.graphemes@.len(),
        offset_at(buf.graphemes@, k as int) == off,
{
    let ghost gs = buf.graphemes@;
    let n = buf.graphemes.len();
    let mut k: usize = 0;
    while k < n && buf.graphemes[k].start < off
        invariant
            buf.wf(),
            gs == buf.graphemes@,
            n == gs.len(),
            k <= n,
            forall|j: int| 0 <= j < k ==> (#[trigger] gs[j]).start < off,
        decreases n - k,
    {
        k += 1;
    }
    proof {
        let kk = choose|kk: int| 0 <= kk <= gs.len() && offset_at(gs, kk) == off;
        if kk < k as int {
            assert(gs[kk].start < off);
            assert(false);
        }
        if kk > k as int {
            lemma_offset_at_increases(gs, k as int, kk);
            assert(false);
        }
    }
    k
}

/// The scan itself, from grapheme index `k0`.
fn layout_from(
    buf: &TextBuffer,
    k0: usize,
    start_offset: usize,
    width: usize,
    height: usize,
) -> (r: LayoutResult)
    requires
        buf.wf(),
        1 <= width,
        1 <= height,
        k0 <= buf.graphemes@.len(),
        offset_at(buf.graphemes@, k0 as int) == start_offset,
    ensures
        ({
            let res = spec_layout(buf.graphemes@, k0 as int, width as int, height as int);
            &&& lines_model(r.lines@) == res.0
            &&& r.next_offset == offset_at(buf.graphemes@, res.1)
            &&& r.ops@ == res.2
        }),
{
    let ghost gs = buf.graphemes@;
    let ghost w = width as int;
    let ghost h = height as int;
    let ghost res = spec_layout(gs, k0 as int, w, h);
    let n = buf.graphemes.len();
    let mut lines: Vec<VisualLine> = Vec::new();
    let mut ops: Vec<DrawOp> = Vec::new();
    let mut col: usize = 0;
    let mut cur_start: usize = start_offset;
    let mut k: usize = k0;
    proof {
        assert(lines_model(lines@) =~= Seq::<(int, int)>::empty());
    }
    while k < n
        invariant
            table_wf(gs),
            gs == buf.graphemes@,
            n == gs.len(),
            1 <= width,
            1 <= height,
            w == width as int,
            h == height as int,
            k0 <= k <= n,
            col <= width,
            lines@.len() < height,
            cur_start + col <= offset_at(gs, k as int),
            is_boundary(gs, cur_start as int),
            res == spec_layout(gs, k0 as int, w, h),
            res == lay(gs, k as int, col as int, cur_start as int, lines_model(lines@), ops@, w, h),
        decreases n - k, (if col == width { 1int } else { 0int }),
    {
        let ghost old_lines = lines_model(lines@);
        let ghost old_ops = ops@;
        let g_start = buf.graphemes[k].start;
        let g_len = buf.graphemes[k].len;
        let nl = is_newline(buf.graphemes[k].text.as_str());
        if nl {
            let vl = VisualLine { start_offset: cur_start, length: col };
            let ghost pre = lines@;
            lines.push(vl);
            proof {
                lemma_lines_model_push(pre, vl);
            }
            proof {
                lemma_grapheme_end(gs, k as int);
                if k + 1 < n {
                    lemma_offset_at_increases(gs, k as int + 1, n as int);
                }
            }
            if lines.len() == height {
                let r = LayoutResult { lines, next_offset: g_start + g_len, ops };
                proof {
                    assert(res == (old_lines.push((cur_start as int, col as int)), k as int + 1, old_ops));
                }
                return r;
            }
            ops.push(DrawOp::NextLine);
            cur_start = g_start + g_len;
            col = 0;
            k = k + 1;
            proof {
                assert(is_boundary(gs, cur_start as int)) by {
                    assert(offset_at(gs, k as int) == cur_start);
                }
            }
        } else if col == width {
            let vl = VisualLine { start_offset: cur_start, length: width };
            let ghost pre = lines@;
            lines.push(vl);
            proof {
                lemma_lines_model_push(pre, vl);
            }
            if lines.len() == height {
                let r = LayoutResult { lines, next_offset: g_start, ops };
                proof {
                    assert(res == (old_lines.push((cur_start as int, width as int)), k as int, old_ops));
                }
                return r;
            }
            ops.push(DrawOp::NextLine);
            cur_start = g_start;
            col = 0;
            proof {
                assert(is_boundary(gs, cur_start as int)) by {
                    assert(offset_at(gs, k as int) == cur_start);
                }
            }
        } else {
            ops.push(DrawOp::Print { start: g_start, len: g_len });
            col = col + 1;
            k = k + 1;
            proof {
                lemma_grapheme_end(gs, k as int - 1);
            }
        }
    }
    let vl = VisualLine { start_offset: cur_start, length: col };
    let ghost pre = lines@;
    lines.push(vl);
    proof {
        lemma_lines_model_push(pre, vl);
        assert(res == (lines_model(lines@), n as int, ops@));
    }
    let next = buf.byte_len();
    LayoutResult { lines, next_offset: next, ops }
}

/// Lay out the page that starts at `start_offset`: scan the graphemes,
/// filling at most `height` visual lines of at most `width` cells; a newline
/// ends a line without being drawn, a full line wraps and the grapheme that
/// overflowed starts the next line. The lines, the offset at which the next
/// page begins and the rendering instructions are all pinned by
/// `spec_layout`, so the result is a function of the arguments alone.
pub fn layout(buf: &TextBuffer, start_offset: usize, width: usize, height: usize) -> (r:
    LayoutResult)
    requires
        buf.wf(),
        1 <= width,
        1 <= height,
        is_boundary(buf.graphemes@, start_offset as int),
    ensures
        layout_matches(r, buf.graphemes@, start_offset as int, width as int, height as int),
        1 <= r.lines@.len() <= height,
        forall|j: int|
            0 <= j < r.lines@.len() ==> {
                &&& (#[trigger] r.lines@[j]).length <= width
                &&& is_boundary(buf.graphemes@, r.lines@[j].start_offset as int)
            },
        r.lines@[0].start_offset == start_offset,
        is_boundary(buf.graphemes@, r.next_offset as int),
        r.next_offset <= buf.spec_byte_len(),
        start_offset <= r.next_offset,
        start_offset < buf.spec_byte_len() ==> start_offset < r.next_offset,
        start_offset == buf.spec_byte_len() ==> r.next_offset == start_offset,
{
    let k0 = index_at_offset(buf, start_offset);
    let r = layout_from(buf, k0, start_offset, width, height);
    proof {
        let gs = buf.graphemes@;
        let w = width as int;
        let h = height as int;
        let res = spec_layout(gs, k0 as int, w, h);
        lemma_lay(gs, k0 as int, 0, start_offset as int, Seq::empty(), Seq::empty(), w, h);
        assert(layout_matches(r, gs, start_offset as int, w, h)) by {
            assert(0 <= k0 as int <= gs.len() && offset_at(gs, k0 as int) == start_offset as int
                && layout_matches_at(r, gs, k0 as int, w, h));
        }
        assert(r.lines@.len() == res.0.len());
        assert forall|j: int| 0 <= j < r.lines@.len() implies {
            &&& (#[trigger] r.lines@[j]).length <= width
            &&& is_boundary(gs, r.lines@[j].start_offset as int)
        } by {
            assert(lines_model(r.lines@)[j] == line_model(r.lines@[j]));
        }
        assert(lines_model(r.lines@)[0] == line_model(r.lines@[0]));
        assert(r.lines@[0].start_offset == start_offset);
        if res.1 < gs.len() {
            lemma_offset_at_increases(gs, res.1, gs.len() as int);
        }
        assert(is_boundary(gs, r.next_offset as int)) by {
            assert(offset_at(gs, res.1) == r.next_offset);
        }
        if (k0 as int) < res.1 {
            lemma_offset_at_increases(gs, k0 as int, res.1);
        }
        if start_offset < buf.spec_byte_len() {
            if k0 as int == gs.len() {
                assert(false);
            }
        }
        if start_offset == buf.spec_byte_len() {
            if (k0 as int) < gs.len() {
                lemma_offset_at_increases(gs, k0 as int, gs.len() as int);
                assert(false);
            }
        }
    }
    r
}

} // verus!
