//! The text buffer, modelled as its sequence of grapheme clusters.

use unicode_segmentation::UnicodeSegmentation;
use vstd::prelude::*;
use vstd::string::StrSliceExecFns;

verus! {

/// One grapheme cluster of the buffer: the byte offset at which it begins,
/// its length in bytes, and its text.
#[derive(Clone, Debug, PartialEq, Eq)]
pub struct Grapheme {
    pub start: usize,
    pub len: usize,
    pub text: String,
}

/// Whether a grapheme's text begins with a newline character; such a grapheme
/// ends a visual line without being drawn.
pub open spec fn spec_is_newline(s: Seq<char>) -> bool {
    s.len() > 0 && (s[0] == '\n' || s[0] == '\r')
}

/// Is the first character a newline of some sort.
pub fn is_newline(s: &str) -> (r: bool)
    ensures
        r == spec_is_newline(s@),
{
    if s.unicode_len() == 0 {
        false
    } else {
        let c = s.get_char(0);
        c == '\n' || c == '\r'
    }
}

/// A grapheme as plain values: byte offset, byte length, text.
pub open spec fn gr_model(g: Grapheme) -> (int, int, Seq<char>) {
    (g.start as int, g.len as int, g.text@)
}

pub open spec fn table_model(gs: Seq<Grapheme>) -> Seq<(int, int, Seq<char>)> {
    gs.map_values(|g: Grapheme| gr_model(g))
}

/// The byte offset just past the last grapheme: the buffer's byte length.
pub open spec fn table_end(gs: Seq<Grapheme>) -> int {
    if gs.len() == 0 {
        0
    } else {
        gs[gs.len() - 1].start + gs[gs.len() - 1].len
    }
}

/// The graphemes are non-empty and tile the byte range `[0, table_end)`:
/// each begins where its predecessor ends.
pub open spec fn table_wf(gs: Seq<Grapheme>) -> bool {
    &&& forall|j: int|
        0 <= j < gs.len() ==> (#[trigger] gs[j]).len >= 1 && gs[j].text@.len() >= 1
    &&& forall|j: int|
        0 <= j < gs.len() - 1 ==> (#[trigger] gs[j]).start + gs[j].len == gs[j + 1].start
    &&& gs.len() > 0 ==> gs[0].start == 0
    &&& table_end(gs) <= usize::MAX
}

/// The byte offset at which grapheme `k` begins; index `gs.len()` stands for
/// the end of the buffer.
pub open spec fn offset_at(gs: Seq<Grapheme>, k: int) -> int {
    if k == gs.len() {
        table_end(gs)
    } else {
        gs[k].start as int
    }
}

/// A byte offset at which a grapheme begins, or the end of the buffer: the
/// offsets from which a layout may start.
pub open spec fn is_boundary(gs: Seq<Grapheme>, off: int) -> bool {
    exists|k: int| 0 <= k <= gs.len() && offset_at(gs, k) == off
}

/// What unicode_segmentation's grapheme_indices returns for a string: each
/// grapheme cluster's byte offset, byte length and text, in order.
pub uninterp spec fn grapheme_table_of(s: Seq<char>) -> Seq<(int, int, Seq<char>)>;

/// Relies on unicode_segmentation's grapheme_indices: it yields the string's
/// grapheme clusters in order, each with its byte offset into the string; the
/// clusters are non-empty substrings that partition the string, so each
/// begins where its predecessor ends and the last ends at the string's byte
/// length.
#[verifier::external_body]
fn segment(s: &str) -> (r: Vec<Grapheme>)
    ensures
        table_model(r@) == grapheme_table_of(s@),
        table_wf(r@),
        table_end(r@) == vstd::utf8::encode_utf8(s@).len(),
{
    UnicodeSegmentation::grapheme_indices(s, false)
        .map(|(i, g)| Grapheme { start: i, len: g.len(), text: g.to_string() })
        .collect()
}

/// The text being viewed: immutable for the life of a session, addressed by
/// byte offset, laid out grapheme by grapheme.
#[derive(Debug)]
pub struct TextBuffer {
    pub graphemes: Vec<Grapheme>,
}

impl TextBuffer {
    pub open spec fn wf(self) -> bool {
        table_wf(self.graphemes@)
    }

    /// The buffer's byte length.
    pub open spec fn spec_byte_len(self) -> int {
        table_end(self.graphemes@)
    }

    /// Segment `s` into the grapheme table the layout engine works on.
    pub fn new(s: &str) -> (t: TextBuffer)
        ensures
            t.wf(),
            table_model(t.graphemes@) == grapheme_table_of(s@),
            t.spec_byte_len() == vstd::utf8::encode_utf8(s@).len(),
    {
        TextBuffer { graphemes: segment(s) }
    }

    /// The byte offset just past the last grapheme.
    pub fn byte_len(&self) -> (n: usize)
        requires
            self.wf(),
        ensures
            n == self.spec_byte_len(),
    {
        if self.graphemes.len() == 0 {
            0
        } else {
            let g = &self.graphemes[self.graphemes.len() - 1];
            g.start + g.len
        }
    }
}

} // verus!
