//! What the reader knows of a book and of its chapters.
use vstd::prelude::*;

verus! {

/// A book's catalog number: 1 is the built-in guide, `n >= 2` is card entry `n - 2`.
#[derive(Clone, Copy, Debug, PartialEq, Eq, Structural)]
pub struct BookId(pub u32);

/// Where a book comes from.
#[derive(Clone, Copy, Debug, PartialEq, Eq, Structural)]
pub enum BookSource {
    BuiltIn,
}

/// Whether a cover image is at hand.
#[derive(Clone, Copy, Debug, PartialEq, Eq, Structural)]
pub enum CoverStatus {
    Missing,
}

#[derive(Clone, Copy, Debug)]
pub struct BookMeta<'a> {
    pub id: BookId,
    pub title: &'a str,
    pub author: &'a str,
    pub source_path: &'a str,
    pub byte_size: u32,
    pub source: BookSource,
    pub cover_status: CoverStatus,
}

#[derive(Clone, Copy, Debug)]
pub struct ChapterMeta<'a> {
    pub title: &'a str,
    pub spine_index: u16,
    pub source_href: &'a str,
}

} // verus!
