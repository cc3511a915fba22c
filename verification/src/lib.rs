//! A terminal pager's core: a layout engine that breaks a text buffer into
//! visual lines for a viewport, and a navigation controller that moves a
//! cursor and pages through the buffer.
//!
//! `text` models the buffer as its sequence of grapheme clusters; `layout`
//! turns a start offset and a viewport into visual lines, the next page's
//! offset and a stream of rendering instructions; `nav` owns the page and
//! cursor and applies user commands; `laws` proves the properties that tie
//! them together, among them that repeated paging covers the whole buffer.

pub mod laws;
pub mod layout;
pub mod nav;
pub mod text;
