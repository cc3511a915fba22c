use pager::layout::{layout, DrawOp, VisualLine};
use pager::nav::{action_for_key, Command, Cursor, Pager};
use pager::text::{is_newline, TextBuffer};

fn line(start_offset: usize, length: usize) -> VisualLine {
    VisualLine { start_offset, length }
}

fn printed(s: &str, ops: &[DrawOp]) -> String {
    let mut out = String::new();
    for op in ops {
        match op {
            DrawOp::Print { start, len } => out.push_str(&s[*start..*start + *len]),
            DrawOp::NextLine => {}
        }
    }
    out
}

#[test]
fn is_newline_cases() {
    assert!(is_newline("\n"));
    assert!(is_newline("\r"));
    assert!(is_newline("\r\n"));
    assert!(is_newline("\nabc"));
    assert!(!is_newline("a"));
    assert!(!is_newline("a\n"));
    assert!(!is_newline(""));
}

#[test]
fn segmentation_groups_combining_marks() {
    // "e" + combining acute is one grapheme of three bytes, then "x"
    let buf = TextBuffer::new("e\u{301}x");
    assert_eq!(buf.graphemes.len(), 2);
    assert_eq!(buf.graphemes[0].start, 0);
    assert_eq!(buf.graphemes[0].len, 3);
    assert_eq!(buf.graphemes[0].text, "e\u{301}");
    assert_eq!(buf.graphemes[1].start, 3);
    assert_eq!(buf.graphemes[1].len, 1);
    assert_eq!(buf.byte_len(), 4);
    // the two graphemes occupy two cells, not four
    let r = layout(&buf, 0, 5, 5);
    assert_eq!(r.lines, vec![line(0, 2)]);
    assert_eq!(r.next_offset, 4);
}

#[test]
fn layout_is_idempotent() {
    let buf = TextBuffer::new("one two three\nfour five\nsix seven eight nine");
    let a = layout(&buf, 0, 7, 3);
    let b = layout(&buf, 0, 7, 3);
    assert_eq!(a, b);
    let c = layout(&buf, a.next_offset, 7, 3);
    let d = layout(&buf, b.next_offset, 7, 3);
    assert_eq!(c, d);
}

#[test]
fn wrap_at_width_five() {
    // width 5: "abcdefgh" becomes a line of 5 and a line of 3
    let buf = TextBuffer::new("abcdefgh");
    let r = layout(&buf, 0, 5, 10);
    assert_eq!(r.lines, vec![line(0, 5), line(5, 3)]);
    assert_eq!(r.next_offset, 8);
}

#[test]
fn newline_splits_lines() {
    let buf = TextBuffer::new("ab\ncde");
    let r = layout(&buf, 0, 10, 2);
    assert_eq!(r.lines, vec![line(0, 2), line(3, 3)]);
    assert_eq!(r.next_offset, 6);
}

#[test]
fn newline_at_width_boundary_breaks_once() {
    // the line fills exactly and then hits a newline: one break, not two
    let buf = TextBuffer::new("ab\ncd");
    let r = layout(&buf, 0, 2, 10);
    assert_eq!(r.lines, vec![line(0, 2), line(3, 2)]);
    assert_eq!(r.next_offset, 5);
}

#[test]
fn crlf_is_one_line_end() {
    let buf = TextBuffer::new("a\r\nb");
    let r = layout(&buf, 0, 10, 10);
    assert_eq!(r.lines, vec![line(0, 1), line(3, 1)]);
    assert_eq!(r.next_offset, 4);
}

#[test]
fn empty_buffer_is_one_empty_line() {
    let buf = TextBuffer::new("");
    assert_eq!(buf.byte_len(), 0);
    let r = layout(&buf, 0, 10, 10);
    assert_eq!(r.lines, vec![line(0, 0)]);
    assert_eq!(r.next_offset, 0);
}

#[test]
fn layout_from_end_of_buffer() {
    let buf = TextBuffer::new("abc");
    let r = layout(&buf, 3, 10, 10);
    assert_eq!(r.lines, vec![line(3, 0)]);
    assert_eq!(r.next_offset, 3);
}

#[test]
fn width_one_wraps_every_grapheme() {
    let buf = TextBuffer::new("abc");
    let r = layout(&buf, 0, 1, 10);
    assert_eq!(r.lines, vec![line(0, 1), line(1, 1), line(2, 1)]);
    assert_eq!(r.next_offset, 3);
}

#[test]
fn height_limits_the_page() {
    let buf = TextBuffer::new("abcdefgh");
    let r = layout(&buf, 0, 3, 2);
    assert_eq!(r.lines, vec![line(0, 3), line(3, 3)]);
    // the seventh grapheme starts the next page
    assert_eq!(r.next_offset, 6);
}

#[test]
fn trailing_newline_leaves_an_empty_line() {
    let buf = TextBuffer::new("ab\n");
    let r = layout(&buf, 0, 10, 10);
    assert_eq!(r.lines, vec![line(0, 2), line(3, 0)]);
    assert_eq!(r.next_offset, 3);
}

#[test]
fn ops_draw_the_page_in_order() {
    let s = "ab\ncde";
    let buf = TextBuffer::new(s);
    let r = layout(&buf, 0, 10, 2);
    assert_eq!(printed(s, &r.ops), "abcde");
    // one advance between the two lines, none after the last
    let breaks = r
        .ops
        .iter()
        .filter(|op| matches!(op, DrawOp::NextLine))
        .count();
    assert_eq!(breaks, 1);
}

#[test]
fn paging_covers_the_whole_buffer() {
    let s = "abcde\nfg\nhijklmnop\n\nqrstuv";
    let buf = TextBuffer::new(s);
    let total = buf.byte_len();
    let mut off: usize = 0;
    let mut out = String::new();
    let mut pages: usize = 0;
    while pages < 100 {
        let r = layout(&buf, off, 3, 2);
        out.push_str(&printed(s, &r.ops));
        pages += 1;
        if r.next_offset == total {
            break;
        }
        assert!(r.next_offset > off);
        off = r.next_offset;
    }
    assert!(pages < 100);
    // everything but the newlines, in order
    assert_eq!(out, "abcdefghijklmnopqrstuv");
}

#[test]
fn cursor_remembers_target_column() {
    // rows: a long line, a line of 3, a line of 9
    let buf = TextBuffer::new("aaaaaaaaaa\nbbb\nccccccccc");
    let mut p = Pager::new(buf, 20, 10);
    for _ in 0..7 {
        p.apply(Command::MoveRight, 20, 10);
    }
    assert_eq!(p.cursor, Cursor { row: 0, col: 7, target_column: 7 });
    p.apply(Command::MoveDown, 20, 10);
    // clamped to the short line, target kept
    assert_eq!(p.cursor, Cursor { row: 1, col: 3, target_column: 7 });
    p.apply(Command::MoveDown, 20, 10);
    // restored on the longer line
    assert_eq!(p.cursor, Cursor { row: 2, col: 7, target_column: 7 });
    p.apply(Command::MoveUp, 20, 10);
    assert_eq!(p.cursor, Cursor { row: 1, col: 3, target_column: 7 });
}

#[test]
fn move_up_at_top_is_noop() {
    let buf = TextBuffer::new("ab\ncd");
    let mut p = Pager::new(buf, 10, 5);
    p.apply(Command::MoveUp, 10, 5);
    assert_eq!(p.cursor, Cursor { row: 0, col: 0, target_column: 0 });
}

#[test]
fn move_down_at_bottom_is_noop() {
    let buf = TextBuffer::new("ab\ncd");
    let mut p = Pager::new(buf, 10, 5);
    // the page has two populated lines: rows 0 and 1
    assert_eq!(p.page.lines.len(), 2);
    p.apply(Command::MoveDown, 10, 5);
    assert_eq!(p.cursor.row, 1);
    p.apply(Command::MoveDown, 10, 5);
    assert_eq!(p.cursor, Cursor { row: 1, col: 0, target_column: 0 });
}

#[test]
fn move_right_wraps_to_next_line() {
    let buf = TextBuffer::new("ab\ncd");
    let mut p = Pager::new(buf, 10, 5);
    p.apply(Command::MoveRight, 10, 5);
    p.apply(Command::MoveRight, 10, 5);
    assert_eq!(p.cursor, Cursor { row: 0, col: 2, target_column: 2 });
    // past the end of the line: start of the next line
    p.apply(Command::MoveRight, 10, 5);
    assert_eq!(p.cursor, Cursor { row: 1, col: 0, target_column: 0 });
}

#[test]
fn move_right_at_end_of_content_is_noop() {
    let buf = TextBuffer::new("ab");
    let mut p = Pager::new(buf, 10, 5);
    p.apply(Command::MoveRight, 10, 5);
    p.apply(Command::MoveRight, 10, 5);
    assert_eq!(p.cursor, Cursor { row: 0, col: 2, target_column: 2 });
    p.apply(Command::MoveRight, 10, 5);
    assert_eq!(p.cursor, Cursor { row: 0, col: 2, target_column: 2 });
}

#[test]
fn move_left_wraps_to_previous_line_end() {
    let buf = TextBuffer::new("ab\ncd");
    let mut p = Pager::new(buf, 10, 5);
    p.apply(Command::MoveDown, 10, 5);
    assert_eq!(p.cursor.row, 1);
    p.apply(Command::MoveLeft, 10, 5);
    assert_eq!(p.cursor, Cursor { row: 0, col: 2, target_column: 2 });
    p.apply(Command::MoveLeft, 10, 5);
    assert_eq!(p.cursor, Cursor { row: 0, col: 1, target_column: 1 });
}

#[test]
fn move_left_at_origin_is_noop() {
    let buf = TextBuffer::new("ab\ncd");
    let mut p = Pager::new(buf, 10, 5);
    p.apply(Command::MoveLeft, 10, 5);
    assert_eq!(p.cursor, Cursor { row: 0, col: 0, target_column: 0 });
}

#[test]
fn page_down_full_advances_and_stops_at_end() {
    let buf = TextBuffer::new("abcdef");
    let mut p = Pager::new(buf, 3, 1);
    assert_eq!(p.page.lines, vec![line(0, 3)]);
    assert_eq!(p.page.next_offset, 3);
    p.apply(Command::PageDownFull, 3, 1);
    assert_eq!(p.page_start, 3);
    assert_eq!(p.page.lines, vec![line(3, 3)]);
    assert_eq!(p.page.next_offset, 6);
    // at the end of the buffer a full page down is a no-op
    p.apply(Command::PageDownFull, 3, 1);
    assert_eq!(p.page_start, 3);
    assert_eq!(p.page.lines, vec![line(3, 3)]);
}

#[test]
fn page_down_full_resets_cursor() {
    let buf = TextBuffer::new("abcdef");
    let mut p = Pager::new(buf, 3, 1);
    p.apply(Command::MoveRight, 3, 1);
    assert_eq!(p.cursor, Cursor { row: 0, col: 1, target_column: 1 });
    p.apply(Command::PageDownFull, 3, 1);
    assert_eq!(p.cursor, Cursor { row: 0, col: 0, target_column: 0 });
}

#[test]
fn page_down_line_scrolls_one_visual_line() {
    let buf = TextBuffer::new("ab\ncd\nef");
    let mut p = Pager::new(buf, 10, 2);
    assert_eq!(p.page.lines, vec![line(0, 2), line(3, 2)]);
    p.apply(Command::PageDownLine, 10, 2);
    assert_eq!(p.page_start, 3);
    assert_eq!(p.page.lines, vec![line(3, 2), line(6, 2)]);
}

#[test]
fn page_down_line_on_single_line_page_is_noop() {
    let buf = TextBuffer::new("abc");
    let mut p = Pager::new(buf, 10, 5);
    assert_eq!(p.page.lines.len(), 1);
    p.apply(Command::PageDownLine, 10, 5);
    assert_eq!(p.page_start, 0);
    assert_eq!(p.page.lines, vec![line(0, 3)]);
    assert_eq!(p.cursor, Cursor { row: 0, col: 0, target_column: 0 });
}

#[test]
fn page_down_half_scrolls_half_the_page() {
    let buf = TextBuffer::new("ab\ncd\nef\ngh\nij");
    let mut p = Pager::new(buf, 10, 4);
    assert_eq!(
        p.page.lines,
        vec![line(0, 2), line(3, 2), line(6, 2), line(9, 2)]
    );
    p.apply(Command::PageDownHalf, 10, 4);
    // half of four lines: the new page starts at line 2
    assert_eq!(p.page_start, 6);
    assert_eq!(p.page.lines[0], line(6, 2));
}

#[test]
fn viewport_change_takes_effect_on_next_page() {
    let buf = TextBuffer::new("abcdefgh");
    let mut p = Pager::new(buf, 4, 1);
    assert_eq!(p.page.lines, vec![line(0, 4)]);
    // the next page command re-lays out under the new viewport
    p.apply(Command::PageDownFull, 2, 2);
    assert_eq!(p.page.lines, vec![line(4, 2), line(6, 2)]);
}

#[test]
fn key_mapping() {
    assert_eq!(action_for_key('q', false), Some(Command::Quit));
    assert_eq!(action_for_key('h', false), Some(Command::MoveLeft));
    assert_eq!(action_for_key('j', false), Some(Command::MoveDown));
    assert_eq!(action_for_key('k', false), Some(Command::MoveUp));
    assert_eq!(action_for_key('l', false), Some(Command::MoveRight));
    assert_eq!(action_for_key(' ', false), Some(Command::PageDownFull));
    assert_eq!(action_for_key('f', true), Some(Command::PageDownFull));
    assert_eq!(action_for_key('e', true), Some(Command::PageDownLine));
    assert_eq!(action_for_key('d', true), Some(Command::PageDownHalf));
    assert_eq!(action_for_key('d', false), None);
    assert_eq!(action_for_key('e', false), None);
    assert_eq!(action_for_key('f', false), None);
    assert_eq!(action_for_key('x', false), None);
}

#[test]
fn quit_changes_nothing() {
    let buf = TextBuffer::new("ab\ncd");
    let mut p = Pager::new(buf, 10, 5);
    p.apply(Command::MoveRight, 10, 5);
    let cursor = p.cursor;
    let lines = p.page.lines.clone();
    p.apply(Command::Quit, 10, 5);
    assert_eq!(p.cursor, cursor);
    assert_eq!(p.page.lines, lines);
    assert_eq!(p.page_start, 0);
}

#[test]
fn layout_resumes_from_mid_buffer_boundary() {
    let buf = TextBuffer::new("ab\ncde");
    let r = layout(&buf, 3, 10, 5);
    assert_eq!(r.lines, vec![line(3, 3)]);
    assert_eq!(r.next_offset, 6);
}

#[test]
fn page_down_half_on_single_line_page_stays_put() {
    let buf = TextBuffer::new("abc");
    let mut p = Pager::new(buf, 10, 5);
    p.apply(Command::MoveRight, 10, 5);
    // half of one line is line 0: the page is laid out again from its own
    // start and the cursor is reset
    p.apply(Command::PageDownHalf, 10, 5);
    assert_eq!(p.page_start, 0);
    assert_eq!(p.page.lines, vec![line(0, 3)]);
    assert_eq!(p.cursor, Cursor { row: 0, col: 0, target_column: 0 });
}
