//! What the reader needs to know of an opened book.
use vstd::prelude::*;

verus! {

/// An entry of a book's table of contents.
#[derive(Clone, Debug)]
pub struct TrbkTocEntry {
    pub title: String,
    /// Nesting depth, 0 at the top.
    pub level: u8,
    /// The page the entry starts on, counted from 0.
    pub page_index: u32,
}

/// An opened book: its page count and its table of contents, in reading order.
#[derive(Clone, Debug)]
pub struct TrbkBookInfo {
    pub page_count: usize,
    pub toc: Vec<TrbkTocEntry>,
}

} // verus!
