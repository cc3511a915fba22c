//! The navigation controller: owns the current page and cursor, and turns
//! user commands into cursor moves or new pages.

use crate::layout::{layout, layout_matches, LayoutResult, VisualLine};
use crate::text::{is_boundary, TextBuffer};
use vstd::prelude::*;

verus! {

/// A user command, as the key mapping produces it.
#[derive(Clone, Copy, Debug, PartialEq, Eq, Structural)]
pub enum Command {
    Quit,
    MoveUp,
    MoveDown,
    MoveLeft,
    MoveRight,
    PageDownFull,
    PageDownLine,
    PageDownHalf,
}

/// The cursor: its visual row and column on the current page, and the column
/// that vertical movement tries to return to.
#[derive(Clone, Copy, Debug, PartialEq, Eq, Structural)]
pub struct Cursor {
    pub row: usize,
    pub col: usize,
    pub target_column: usize,
}

/// The smaller of two columns: vertical moves clamp the target column to the
/// destination line's length.
pub open spec fn min_col(a: usize, b: usize) -> usize {
    if a < b {
        a
    } else {
        b
    }
}

/// How one cursor command moves the cursor over the page's visual lines.
/// Moves past the top, the bottom, or the ends of the content are no-ops.
pub open spec fn cursor_step(c: Cursor, cmd: Command, lines: Seq<VisualLine>) -> Cursor {
    match cmd {
        Command::MoveUp => {
            if c.row > 0 {
                let len = lines[c.row - 1].length;
                Cursor {
                    row: (c.row - 1) as usize,
                    col: min_col(c.target_column, len),
                    target_column: c.target_column,
                }
            } else {
                c
            }
        },
        Command::MoveDown => {
            if c.row + 1 < lines.len() {
                let len = lines[c.row + 1].length;
                Cursor {
                    row: (c.row + 1) as usize,
                    col: min_col(c.target_column, len),
                    target_column: c.target_column,
                }
            } else {
                c
            }
        },
        Command::MoveRight => {
            if c.col < lines[c.row as int].length {
                Cursor { row: c.row, col: (c.col + 1) as usize, target_column: (c.col + 1) as usize }
            } else if c.row + 1 < lines.len() {
                Cursor { row: (c.row + 1) as usize, col: 0, target_column: 0 }
            } else {
                c
            }
        },
        Command::MoveLeft => {
            if c.col > 0 {
                Cursor { row: c.row, col: (c.col - 1) as usize, target_column: (c.col - 1) as usize }
            } else if c.row > 0 {
                let len = lines[c.row - 1].length;
                Cursor { row: (c.row - 1) as usize, col: len, target_column: len }
            } else {
                c
            }
        },
        _ => c,
    }
}

/// `p` shows the page of `prev`'s buffer that starts at byte offset `start`,
/// with the cursor reset to the top left.
pub open spec fn paged(p: Pager, prev: Pager, start: int, width: int, height: int) -> bool {
    &&& p.buf == prev.buf
    &&& p.page_start == start
    &&& layout_matches(p.page, prev.buf.graphemes@, start, width, height)
    &&& p.cursor == (Cursor { row: 0, col: 0, target_column: 0 })
}

/// The viewing session: the buffer, the page on screen, where that page
/// starts, and the cursor.
#[derive(Debug)]
pub struct Pager {
    pub buf: TextBuffer,
    pub page_start: usize,
    pub page: LayoutResult,
    pub cursor: Cursor,
}

impl Pager {
    /// The page has at least one line, every line starts at a grapheme
    /// boundary (so any of them can start the next layout), and the cursor
    /// sits on the page.
    pub open spec fn wf(self) -> bool {
        &&& self.buf.wf()
        &&& 1 <= self.page.lines@.len()
        &&& (self.cursor.row as int) < self.page.lines@.len()
        &&& self.cursor.col <= self.page.lines@[self.cursor.row as int].length
        &&& forall|j: int|
            0 <= j < self.page.lines@.len() ==> is_boundary(
                self.buf.graphemes@,
                (#[trigger] self.page.lines@[j]).start_offset as int,
            )
        &&& is_boundary(self.buf.graphemes@, self.page.next_offset as int)
        &&& self.page.next_offset <= self.buf.spec_byte_len()
    }

    /// Open a session on `buf`: lay out the first page, cursor at the top
    /// left.
    pub fn new(buf: TextBuffer, width: usize, height: usize) -> (p: Pager)
        requires
            buf.wf(),
            1 <= width,
            1 <= height,
        ensures
            p.wf(),
            p.buf == buf,
            p.page_start == 0,
            layout_matches(p.page, buf.graphemes@, 0, width as int, height as int),
            p.cursor == (Cursor { row: 0, col: 0, target_column: 0 }),
    {
        proof {
            assert(crate::text::offset_at(buf.graphemes@, 0) == 0);
            assert(is_boundary(buf.graphemes@, 0));
        }
        let page = layout(&buf, 0, width, height);
        Pager { buf, page_start: 0, page, cursor: Cursor { row: 0, col: 0, target_column: 0 } }
    }

    /// Replace the page with the one that starts at `start`, cursor reset.
    fn relayout(&mut self, start: usize, width: usize, height: usize)
        requires
            old(self).wf(),
            1 <= width,
            1 <= height,
            is_boundary(old(self).buf.graphemes@, start as int),
        ensures
            final(self).wf(),
            paged(*final(self), *old(self), start as int, width as int, height as int),
    {
        let page = layout(&self.buf, start, width, height);
        self.page = page;
        self.page_start = start;
        self.cursor = Cursor { row: 0, col: 0, target_column: 0 };
    }

    /// Apply one command. Cursor commands move over the current page as
    /// `cursor_step` says; page commands lay out a new page of the same
    /// buffer under the viewport passed in, and reset the cursor; `Quit`
    /// changes nothing. Moving up at the top row, down at the bottom row,
    /// paging a full page at the end of the buffer, and paging by one line
    /// on a single-line page are all no-ops.
    pub fn apply(&mut self, cmd: Command, width: usize, height: usize)
        requires
            old(self).wf(),
            1 <= width,
            1 <= height,
        ensures
            final(self).wf(),
            final(self).buf == old(self).buf,
            match cmd {
                Command::Quit => *final(self) == *old(self),
                Command::MoveUp | Command::MoveDown | Command::MoveLeft | Command::MoveRight => {
                    &&& final(self).page == old(self).page
                    &&& final(self).page_start == old(self).page_start
                    &&& final(self).cursor == cursor_step(
                        old(self).cursor,
                        cmd,
                        old(self).page.lines@,
                    )
                },
                Command::PageDownFull => {
                    if old(self).page.next_offset < old(self).buf.spec_byte_len() {
                        paged(
                            *final(self),
                            *old(self),
                            old(self).page.next_offset as int,
                            width as int,
                            height as int,
                        )
                    } else {
                        *final(self) == *old(self)
                    }
                },
                Command::PageDownLine => {
                    if old(self).page.lines@.len() >= 2 {
                        paged(
                            *final(self),
                            *old(self),
                            old(self).page.lines@[1].start_offset as int,
                            width as int,
                            height as int,
                        )
                    } else {
                        *final(self) == *old(self)
                    }
                },
                Command::PageDownHalf => paged(
                    *final(self),
                    *old(self),
                    old(self).page.lines@[old(self).page.lines@.len() as int / 2].start_offset
                        as int,
                    width as int,
                    height as int,
                ),
            },
    {
        match cmd {
            Command::Quit => {},
            Command::MoveUp => {
                if self.cursor.row > 0 {
                    let r = self.cursor.row - 1;
                    let len = self.page.lines[r].length;
                    let t = self.cursor.target_column;
                    self.cursor = Cursor {
                        row: r,
                        col: if t < len { t } else { len },
                        target_column: t,
                    };
                }
            },
            Command::MoveDown => {
                if self.cursor.row < self.page.lines.len() - 1 {
                    let r = self.cursor.row + 1;
                    let len = self.page.lines[r].length;
                    let t = self.cursor.target_column;
                    self.cursor = Cursor {
                        row: r,
                        col: if t < len { t } else { len },
                        target_column: t,
                    };
                }
            },
            Command::MoveRight => {
                let len = self.page.lines[self.cursor.row].length;
                if self.cursor.col < len {
                    let c = self.cursor.col + 1;
                    self.cursor = Cursor { row: self.cursor.row, col: c, target_column: c };
                } else if self.cursor.row < self.page.lines.len() - 1 {
                    self.cursor = Cursor { row: self.cursor.row + 1, col: 0, target_column: 0 };
                }
            },
            Command::MoveLeft => {
                if self.cursor.col > 0 {
                    let c = self.cursor.col - 1;
                    self.cursor = Cursor { row: self.cursor.row, col: c, target_column: c };
                } else if self.cursor.row > 0 {
                    let r = self.cursor.row - 1;
                    let len = self.page.lines[r].length;
                    self.cursor = Cursor { row: r, col: len, target_column: len };
                }
            },
            Command::PageDownFull => {
                let end = self.buf.byte_len();
                if self.page.next_offset < end {
                    let start = self.page.next_offset;
                    self.relayout(start, width, height);
                }
            },
            Command::PageDownLine => {
                if self.page.lines.len() >= 2 {
                    let start = self.page.lines[1].start_offset;
                    self.relayout(start, width, height);
                }
            },
            Command::PageDownHalf => {
                let half = self.page.lines.len() / 2;
                let start = self.page.lines[half].start_offset;
                self.relayout(start, width, height);
            },
        }
    }
}

/// What a key means. Plain `q`, `h`, `j`, `k`, `l` and space are commands;
/// `d`, `e` and `f` are commands only with control held; anything else is
/// ignored.
pub open spec fn spec_action_for_key(c: char, ctrl: bool) -> Option<Command> {
    match c {
        ' ' => Some(Command::PageDownFull),
        'd' => if ctrl {
            Some(Command::PageDownHalf)
        } else {
            None
        },
        'e' => if ctrl {
            Some(Command::PageDownLine)
        } else {
            None
        },
        'f' => if ctrl {
            Some(Command::PageDownFull)
        } else {
            None
        },
        'h' => Some(Command::MoveLeft),
        'j' => Some(Command::MoveDown),
        'k' => Some(Command::MoveUp),
        'l' => Some(Command::MoveRight),
        'q' => Some(Command::Quit),
        _ => None,
    }
}

/// Map one key press to a command; keys outside the mapping are ignored.
pub fn action_for_key(c: char, ctrl: bool) -> (r: Option<Command>)
    ensures
        r == spec_action_for_key(c, ctrl),
{
    match c {
        ' ' => Some(Command::PageDownFull),
        'd' => if ctrl {
            Some(Command::PageDownHalf)
        } else {
            None
        },
        'e' => if ctrl {
            Some(Command::PageDownLine)
        } else {
            None
        },
        'f' => if ctrl {
            Some(Command::PageDownFull)
        } else {
            None
        },
        'h' => Some(Command::MoveLeft),
        'j' => Some(Command::MoveDown),
        'k' => Some(Command::MoveUp),
        'l' => Some(Command::MoveRight),
        'q' => Some(Command::Quit),
        _ => None,
    }
}

} // verus!
