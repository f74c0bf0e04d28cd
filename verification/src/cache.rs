//! Records of the section cache: text blocks, pages and table-of-contents
//! entries, each pointing into a shared text buffer.
use vstd::prelude::*;
use crate::text::{FontStyle, TextAlign, TextRole};

verus! {

/// Bytes of a book's cache key (a hex MD5 digest).
pub const CACHE_KEY_BYTES: usize = 32;
/// Cover thumbnail width in pixels.
pub const COVER_WIDTH: usize = 96;
/// Cover thumbnail height in pixels.
pub const COVER_HEIGHT: usize = 144;
/// Bytes per cover row, 1 bit per pixel.
pub const COVER_STRIDE: usize = 12;
/// Bytes of a whole cover thumbnail.
pub const COVER_BYTES: usize = 1728;

/// A typeset block: where its text lies in the text buffer, how many lines
/// it takes, and how it is set.
#[derive(Clone, Copy, Debug, PartialEq, Eq, Structural)]
pub struct BlockRecord {
    pub text_offset: u32,
    pub text_len: u16,
    pub line_count: u16,
    pub role: TextRole,
    pub style: FontStyle,
    pub align: TextAlign,
}

/// A page: the run of blocks on it.
#[derive(Clone, Copy, Debug, PartialEq, Eq, Structural)]
pub struct PageRecord {
    pub first_block: u16,
    pub block_count: u16,
}

/// A table-of-contents entry: where its title, href and anchor lie in the
/// TOC text buffer, its nesting level and its spine index (-1: unknown).
#[derive(Clone, Copy, Debug, PartialEq, Eq, Structural)]
pub struct TocRecord {
    pub title_offset: u32,
    pub title_len: u16,
    pub href_offset: u32,
    pub href_len: u16,
    pub anchor_offset: u32,
    pub anchor_len: u16,
    pub level: u8,
    pub spine_index: i16,
}

pub open spec fn empty_block_record() -> BlockRecord {
    BlockRecord {
        text_offset: 0,
        text_len: 0,
        line_count: 0,
        role: TextRole::Body,
        style: FontStyle::Regular,
        align: TextAlign::Justify,
    }
}

pub open spec fn empty_page_record() -> PageRecord {
    PageRecord { first_block: 0, block_count: 0 }
}

pub open spec fn empty_toc_record() -> TocRecord {
    TocRecord {
        title_offset: 0,
        title_len: 0,
        href_offset: 0,
        href_len: 0,
        anchor_offset: 0,
        anchor_len: 0,
        level: 0,
        spine_index: -1i16,
    }
}

pub fn new_block_record() -> (r: BlockRecord)
    ensures
        r == empty_block_record(),
{
    BlockRecord {
        text_offset: 0,
        text_len: 0,
        line_count: 0,
        role: TextRole::Body,
        style: FontStyle::Regular,
        align: TextAlign::Justify,
    }
}

pub fn new_page_record() -> (r: PageRecord)
    ensures
        r == empty_page_record(),
{
    PageRecord { first_block: 0, block_count: 0 }
}

pub fn new_toc_record() -> (r: TocRecord)
    ensures
        r == empty_toc_record(),
{
    TocRecord {
        title_offset: 0,
        title_len: 0,
        href_offset: 0,
        href_len: 0,
        anchor_offset: 0,
        anchor_len: 0,
        level: 0,
        spine_index: -1,
    }
}

} // verus!
