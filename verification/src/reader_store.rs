//! The reader store: the card catalog, and the loaded book's table of
//! contents, cover and typeset section, all in fixed-size buffers.
use vstd::prelude::*;
use vstd::utf8::*;
use vstd::string::*;
use crate::cache::{
    BlockRecord, PageRecord, TocRecord, COVER_BYTES, COVER_HEIGHT, COVER_STRIDE, COVER_WIDTH,
    empty_block_record, empty_page_record, empty_toc_record, new_block_record, new_page_record,
    new_toc_record,
};
use crate::hstring::{
    hstr16, hstr16_new, hstr16_push_str, hstr32, hstr32_as_str, hstr32_new, hstr64, hstr64_as_str,
    hstr64_new, hstr64_push_str, utf8_len,
};
use crate::text::FontStyle;
use crate::textutil::{
    source_hash, source_hash_spec, str_from_utf8, str_trim, strip_fragment, strip_fragment_chars,
    trimmed,
};

verus! {

pub const MAX_LIBRARY_BOOKS: usize = 8;
pub const MAX_SD_TOC_ITEMS: usize = 64;
pub const MAX_SD_TOC_TEXT_BYTES: usize = 4096;
pub const MAX_READER_BLOCKS: usize = 384;
pub const MAX_READER_PAGES: usize = 96;
pub const MAX_READER_TEXT_BYTES: usize = 16384;
pub const MAX_READER_BLOCK_TEXT: usize = 768;

#[derive(Clone, Copy, Debug, PartialEq, Eq, Structural)]
pub enum LibraryScanStatus {
    NotScanned,
    Scanning,
    Ready,
    Empty,
    Error,
}

#[derive(Clone, Copy, Debug, PartialEq, Eq, Structural)]
pub enum BookLoadStatus {
    Empty,
    Loading,
    Ready,
    Error,
}

/// One book found on the card: the name shown, the 8.3 name it opens by,
/// whether it lies in `/BOOKS`, its size, and its source hash.
pub struct LibraryBookEntry {
    pub display_name: heapless::String<64>,
    pub open_name: heapless::String<16>,
    pub in_books_dir: bool,
    pub byte_size: u32,
    pub source_hash: u32,
}

impl LibraryBookEntry {
    /// An entry that holds nothing.
    pub open spec fn is_blank(&self) -> bool {
        &&& hstr64(self.display_name) == Seq::<char>::empty()
        &&& hstr16(self.open_name) == Seq::<char>::empty()
        &&& !self.in_books_dir
        &&& self.byte_size == 0
        &&& self.source_hash == 0
    }

    pub fn new() -> (e: Self)
        ensures
            e.is_blank(),
    {
        Self {
            display_name: hstr64_new(),
            open_name: hstr16_new(),
            in_books_dir: false,
            byte_size: 0,
            source_hash: 0,
        }
    }
}

/// A 1-bit cover thumbnail, rows of `stride` bytes.
pub struct ReaderCover<'a> {
    pub width: u16,
    pub height: u16,
    pub stride: u16,
    pub bits: &'a [u8],
}

/// A table-of-contents line as the chapter list shows it.
pub struct TocItem<'a> {
    pub title: &'a str,
    pub level: u8,
}

pub struct ReaderStore {
    pub status: LibraryScanStatus,
    pub entries: Vec<LibraryBookEntry>,
    pub count: usize,
    pub current_index: Option<usize>,
    pub loaded_index: Option<usize>,
    pub loaded_chapter: u8,
    pub reader_status: BookLoadStatus,
    pub title: heapless::String<64>,
    pub author: heapless::String<64>,
    pub error: heapless::String<32>,
    pub cache_key: heapless::String<32>,
    pub cover_ready: bool,
    pub cover_width: u16,
    pub cover_height: u16,
    pub cover_bits: Vec<u8>,
    pub cached_spine: u16,
    pub section_partial: bool,
    pub toc_text: Vec<u8>,
    pub toc_text_len: usize,
    pub toc: Vec<TocRecord>,
    pub toc_page: Vec<u16>,
    pub toc_count: usize,
    pub text: Vec<u8>,
    pub text_len: usize,
    pub blocks: Vec<BlockRecord>,
    pub block_styles: Vec<FontStyle>,
    pub block_spine: Vec<u16>,
    pub block_page_break_before: Vec<bool>,
    pub block_paragraph_end: Vec<bool>,
    pub block_count: usize,
    pub pages: Vec<PageRecord>,
    pub page_spine: Vec<u16>,
    pub page_count: usize,
}

/// `n` copies of `value`.
fn filled<T: Copy>(value: T, n: usize) -> (v: Vec<T>)
    ensures
        v@ == Seq::new(n as nat, |i: int| value),
{
    let mut v: Vec<T> = Vec::new();
    while v.len() < n
        invariant
            v@.len() <= n,
            forall|i: int| 0 <= i < v@.len() ==> v@[i] == value,
        decreases n - v@.len(),
    {
        v.push(value);
    }
    assert(v@ =~= Seq::new(n as nat, |i: int| value));
    v
}

/// Overwrites every item of `v` with `value`.
fn fill_all<T: Copy>(v: &mut Vec<T>, value: T)
    ensures
        final(v)@ == Seq::new(old(v)@.len(), |i: int| value),
{
    let mut i: usize = 0;
    while i < v.len()
        invariant
            i <= v@.len(),
            v@.len() == old(v)@.len(),
            forall|k: int| 0 <= k < i ==> v@[k] == value,
        decreases v@.len() - i,
    {
        v.set(i, value);
        i += 1;
    }
    assert(v@ =~= Seq::new(old(v)@.len(), |i: int| value));
}

/// The characters `buf` holds at `[offset, offset + len)`, or `""` when the
/// range runs past the buffer or the bytes are not valid UTF-8.
fn stored_text(buf: &[u8], offset: usize, len: usize) -> (r: &str)
    ensures
        r@ == stored_str(buf@, offset as int, len as int),
{
    let end = offset.saturating_add(len);
    proof {
        reveal_strlit("");
    }
    if end > buf.len() {
        return "";
    }
    let bytes = &buf[offset..end];
    match str_from_utf8(bytes) {
        Some(s) => {
            proof {
                encode_utf8_decode_utf8(s@);
            }
            s
        },
        None => "",
    }
}

/// The characters a buffer holds at `[offset, offset + len)` (the end
/// saturating at `usize::MAX`): nothing when the range runs past the buffer
/// or the bytes are not valid UTF-8.
pub open spec fn stored_str(buf: Seq<u8>, offset: int, len: int) -> Seq<char> {
    let end = if offset + len > usize::MAX {
        usize::MAX as int
    } else {
        offset + len
    };
    if end <= buf.len() && valid_utf8(buf.subrange(offset, end)) {
        decode_utf8(buf.subrange(offset, end))
    } else {
        Seq::empty()
    }
}

impl ReaderStore {
    /// Every buffer has its fixed size, the counts stay within them, and
    /// every TOC entry points inside the used TOC text.
    pub open spec fn wf(&self) -> bool {
        &&& self.entries@.len() == MAX_LIBRARY_BOOKS
        &&& self.count <= MAX_LIBRARY_BOOKS
        &&& self.cover_bits@.len() == COVER_BYTES
        &&& self.toc_text@.len() == MAX_SD_TOC_TEXT_BYTES
        &&& self.toc_text_len <= MAX_SD_TOC_TEXT_BYTES
        &&& self.toc@.len() == MAX_SD_TOC_ITEMS
        &&& self.toc_page@.len() == MAX_SD_TOC_ITEMS
        &&& self.toc_count <= MAX_SD_TOC_ITEMS
        &&& self.text@.len() == MAX_READER_TEXT_BYTES
        &&& self.blocks@.len() == MAX_READER_BLOCKS
        &&& self.block_styles@.len() == MAX_READER_BLOCKS
        &&& self.block_spine@.len() == MAX_READER_BLOCKS
        &&& self.block_page_break_before@.len() == MAX_READER_BLOCKS
        &&& self.block_paragraph_end@.len() == MAX_READER_BLOCKS
        &&& self.pages@.len() == MAX_READER_PAGES
        &&& self.page_spine@.len() == MAX_READER_PAGES
        &&& self.text_len <= MAX_READER_TEXT_BYTES
        &&& self.block_count <= MAX_READER_BLOCKS
        &&& self.page_count <= MAX_READER_PAGES
        &&& self.toc_entries_in_text()
    }

    /// The card catalog of `a` and `b` agree.
    pub open spec fn same_catalog(a: &Self, b: &Self) -> bool {
        &&& a.status == b.status
        &&& a.entries == b.entries
        &&& a.count == b.count
        &&& a.current_index == b.current_index
    }

    /// The loaded book's labels and state agree.
    pub open spec fn same_book(a: &Self, b: &Self) -> bool {
        &&& a.loaded_index == b.loaded_index
        &&& a.loaded_chapter == b.loaded_chapter
        &&& a.reader_status == b.reader_status
        &&& a.title == b.title
        &&& a.author == b.author
        &&& a.error == b.error
        &&& a.cache_key == b.cache_key
        &&& a.cached_spine == b.cached_spine
    }

    /// The cover of `a` and `b` agree.
    pub open spec fn same_cover(a: &Self, b: &Self) -> bool {
        &&& a.cover_ready == b.cover_ready
        &&& a.cover_width == b.cover_width
        &&& a.cover_height == b.cover_height
        &&& a.cover_bits@ == b.cover_bits@
    }

    /// The table of contents of `a` and `b` agree.
    pub open spec fn same_toc(a: &Self, b: &Self) -> bool {
        &&& a.toc_text@ == b.toc_text@
        &&& a.toc_text_len == b.toc_text_len
        &&& a.toc@ == b.toc@
        &&& a.toc_page@ == b.toc_page@
        &&& a.toc_count == b.toc_count
    }

    /// The typeset section of `a` and `b` agree.
    pub open spec fn same_lines(a: &Self, b: &Self) -> bool {
        &&& a.section_partial == b.section_partial
        &&& a.text@ == b.text@
        &&& a.text_len == b.text_len
        &&& a.blocks@ == b.blocks@
        &&& a.block_styles@ == b.block_styles@
        &&& a.block_spine@ == b.block_spine@
        &&& a.block_page_break_before@ == b.block_page_break_before@
        &&& a.block_paragraph_end@ == b.block_paragraph_end@
        &&& a.block_count == b.block_count
        &&& a.pages@ == b.pages@
        &&& a.page_spine@ == b.page_spine@
        &&& a.page_count == b.page_count
    }

    /// A catalog with no books and no selection.
    pub open spec fn catalog_is_clear(&self) -> bool {
        &&& self.count == 0
        &&& self.current_index is None
        &&& forall|i: int| 0 <= i < self.entries@.len() ==> (#[trigger] self.entries@[i]).is_blank()
    }

    /// No table of contents.
    pub open spec fn toc_is_clear(&self) -> bool {
        &&& self.toc_text_len == 0
        &&& self.toc_count == 0
        &&& self.toc@ == Seq::new(MAX_SD_TOC_ITEMS as nat, |i: int| empty_toc_record())
        &&& self.toc_page@ == Seq::new(MAX_SD_TOC_ITEMS as nat, |i: int| 0u16)
    }

    /// No cover: not ready, default size, all bits clear.
    pub open spec fn cover_is_clear(&self) -> bool {
        &&& !self.cover_ready
        &&& self.cover_width == COVER_WIDTH
        &&& self.cover_height == COVER_HEIGHT
        &&& self.cover_bits@ == Seq::new(COVER_BYTES as nat, |i: int| 0u8)
    }

    /// No typeset section: no text, blocks or pages, every block in its
    /// default style and ending a paragraph.
    pub open spec fn lines_are_clear(&self) -> bool {
        &&& self.text_len == 0
        &&& self.block_count == 0
        &&& self.page_count == 0
        &&& !self.section_partial
        &&& self.blocks@ == Seq::new(MAX_READER_BLOCKS as nat, |i: int| empty_block_record())
        &&& self.block_styles@ == Seq::new(MAX_READER_BLOCKS as nat, |i: int| FontStyle::Regular)
        &&& self.block_spine@ == Seq::new(MAX_READER_BLOCKS as nat, |i: int| 0u16)
        &&& self.block_page_break_before@ == Seq::new(MAX_READER_BLOCKS as nat, |i: int| false)
        &&& self.block_paragraph_end@ == Seq::new(MAX_READER_BLOCKS as nat, |i: int| true)
        &&& self.pages@ == Seq::new(MAX_READER_PAGES as nat, |i: int| empty_page_record())
        &&& self.page_spine@ == Seq::new(MAX_READER_PAGES as nat, |i: int| 0u16)
    }

    fn blank_entries() -> (v: Vec<LibraryBookEntry>)
        ensures
            v@.len() == MAX_LIBRARY_BOOKS,
            forall|i: int| 0 <= i < v@.len() ==> (#[trigger] v@[i]).is_blank(),
    {
        let mut v: Vec<LibraryBookEntry> = Vec::new();
        while v.len() < MAX_LIBRARY_BOOKS
            invariant
                v@.len() <= MAX_LIBRARY_BOOKS,
                forall|i: int| 0 <= i < v@.len() ==> (#[trigger] v@[i]).is_blank(),
            decreases MAX_LIBRARY_BOOKS - v@.len(),
        {
            v.push(LibraryBookEntry::new());
        }
        v
    }

    pub fn new() -> (s: Self)
        ensures
            s.wf(),
            s.status == LibraryScanStatus::NotScanned,
            s.catalog_is_clear(),
            s.loaded_index is None,
            s.loaded_chapter == 0,
            s.reader_status == BookLoadStatus::Empty,
            hstr64(s.title) == Seq::<char>::empty(),
            hstr64(s.author) == Seq::<char>::empty(),
            hstr32(s.error) == Seq::<char>::empty(),
            hstr32(s.cache_key) == Seq::<char>::empty(),
            s.cover_is_clear(),
            s.cached_spine == 0,
            s.toc_text@ == Seq::new(MAX_SD_TOC_TEXT_BYTES as nat, |i: int| 0u8),
            s.toc_is_clear(),
            s.text@ == Seq::new(MAX_READER_TEXT_BYTES as nat, |i: int| 0u8),
            s.lines_are_clear(),
    {
        Self {
            status: LibraryScanStatus::NotScanned,
            entries: Self::blank_entries(),
            count: 0,
            current_index: None,
            loaded_index: None,
            loaded_chapter: 0,
            reader_status: BookLoadStatus::Empty,
            title: hstr64_new(),
            author: hstr64_new(),
            error: hstr32_new(),
            cache_key: hstr32_new(),
            cover_ready: false,
            cover_width: COVER_WIDTH as u16,
            cover_height: COVER_HEIGHT as u16,
            cover_bits: filled(0u8, COVER_BYTES),
            cached_spine: 0,
            section_partial: false,
            toc_text: filled(0u8, MAX_SD_TOC_TEXT_BYTES),
            toc_text_len: 0,
            toc: filled(new_toc_record(), MAX_SD_TOC_ITEMS),
            toc_page: filled(0u16, MAX_SD_TOC_ITEMS),
            toc_count: 0,
            text: filled(0u8, MAX_READER_TEXT_BYTES),
            text_len: 0,
            blocks: filled(new_block_record(), MAX_READER_BLOCKS),
            block_styles: filled(FontStyle::Regular, MAX_READER_BLOCKS),
            block_spine: filled(0u16, MAX_READER_BLOCKS),
            block_page_break_before: filled(false, MAX_READER_BLOCKS),
            block_paragraph_end: filled(true, MAX_READER_BLOCKS),
            block_count: 0,
            pages: filled(new_page_record(), MAX_READER_PAGES),
            page_spine: filled(0u16, MAX_READER_PAGES),
            page_count: 0,
        }
    }

    /// Empties the catalog and drops the selection.
    pub fn clear_catalog(&mut self)
        requires
            old(self).wf(),
        ensures
            final(self).wf(),
            final(self).catalog_is_clear(),
            final(self).status == old(self).status,
            Self::same_book(&*final(self), &*old(self)),
            Self::same_cover(&*final(self), &*old(self)),
            Self::same_toc(&*final(self), &*old(self)),
            Self::same_lines(&*final(self), &*old(self)),
    {
        self.count = 0;
        let mut i: usize = 0;
        while i < self.entries.len()
            invariant
                self.wf(),
                self.count == 0,
                Self::same_book(&*self, &*old(self)),
                Self::same_cover(&*self, &*old(self)),
                Self::same_toc(&*self, &*old(self)),
                Self::same_lines(&*self, &*old(self)),
                self.status == old(self).status,
                i <= self.entries@.len(),
                forall|k: int| 0 <= k < i ==> (#[trigger] self.entries@[k]).is_blank(),
            decreases self.entries@.len() - i,
        {
            self.entries.set(i, LibraryBookEntry::new());
            i += 1;
        }
        self.current_index = None;
    }

    pub fn catalog_count(&self) -> (n: usize)
        ensures
            n == self.count,
    {
        self.count
    }

    /// The number of books, capped at 255.
    pub fn catalog_count_u8(&self) -> (n: u8)
        ensures
            n == if self.count <= 255 {
                self.count as u8
            } else {
                255u8
            },
    {
        if self.count <= 255 {
            self.count as u8
        } else {
            255
        }
    }

    pub fn catalog_is_empty(&self) -> (b: bool)
        ensures
            b == (self.count == 0),
    {
        self.count == 0
    }

    /// The books found, in the order they were added.
    pub fn catalog_entries(&self) -> (r: &[LibraryBookEntry])
        requires
            self.wf(),
        ensures
            r@ == self.entries@.take(self.count as int),
    {
        let all = self.entries.as_slice();
        &all[0..self.count]
    }

    /// The book at `index`, if it is one of the books found.
    pub fn catalog_entry(&self, index: usize) -> (r: Option<&LibraryBookEntry>)
        ensures
            r == if index < self.count && index < self.entries@.len() {
                Some(&self.entries@[index as int])
            } else {
                None
            },
    {
        if index < self.entries.len() && index < self.count {
            Some(&self.entries[index])
        } else {
            None
        }
    }

    /// Book ids from 2 up name card entries from 0 up.
    pub open spec fn selected_book_index_spec(book_id: u32) -> Option<usize> {
        if book_id >= 2 {
            Some((book_id - 2) as usize)
        } else {
            None
        }
    }

    pub fn selected_book_index(book_id: u32) -> (r: Option<usize>)
        ensures
            r == Self::selected_book_index_spec(book_id),
    {
        match book_id.checked_sub(2) {
            Some(index) => Some(index as usize),
            None => None,
        }
    }

    /// The card entry a book id names, if it is one of the books found.
    pub open spec fn selected_entry(&self, book_id: u32) -> Option<LibraryBookEntry> {
        match Self::selected_book_index_spec(book_id) {
            Some(i) => if i < self.count && i < self.entries@.len() {
                Some(self.entries@[i as int])
            } else {
                None
            },
            None => None,
        }
    }

    /// The source hash and size of the book a book id names, or `(0, 0)`.
    pub fn source_identity(&self, book_id: u32) -> (r: (u32, u32))
        ensures
            r == match self.selected_entry(book_id) {
                Some(e) => (e.source_hash, e.byte_size),
                None => (0u32, 0u32),
            },
    {
        let index = match Self::selected_book_index(book_id) {
            Some(index) => index,
            None => return (0, 0),
        };
        match self.catalog_entry(index) {
            Some(entry) => (entry.source_hash, entry.byte_size),
            None => (0, 0),
        }
    }

    /// Selects the card entry `index` when it is one of the books found.
    pub fn set_current_index(&mut self, index: usize)
        ensures
            final(self).current_index == if index < old(self).count {
                Some(index)
            } else {
                old(self).current_index
            },
            final(self).status == old(self).status,
            final(self).entries == old(self).entries,
            final(self).count == old(self).count,
            Self::same_book(&*final(self), &*old(self)),
            Self::same_cover(&*final(self), &*old(self)),
            Self::same_toc(&*final(self), &*old(self)),
            Self::same_lines(&*final(self), &*old(self)),
    {
        if index < self.count {
            self.current_index = Some(index);
        }
    }

    /// Drops the table of contents.
    pub fn clear_toc(&mut self)
        requires
            old(self).wf(),
        ensures
            final(self).wf(),
            final(self).toc_is_clear(),
            final(self).toc_text@ == old(self).toc_text@,
            Self::same_catalog(&*final(self), &*old(self)),
            Self::same_book(&*final(self), &*old(self)),
            Self::same_cover(&*final(self), &*old(self)),
            Self::same_lines(&*final(self), &*old(self)),
    {
        self.toc_text_len = 0;
        self.toc_count = 0;
        fill_all(&mut self.toc, new_toc_record());
        fill_all(&mut self.toc_page, 0u16);
    }

    /// Drops the cover.
    pub fn clear_cover(&mut self)
        requires
            old(self).wf(),
        ensures
            final(self).wf(),
            final(self).cover_is_clear(),
            Self::same_catalog(&*final(self), &*old(self)),
            Self::same_book(&*final(self), &*old(self)),
            Self::same_toc(&*final(self), &*old(self)),
            Self::same_lines(&*final(self), &*old(self)),
    {
        self.cover_ready = false;
        self.cover_width = COVER_WIDTH as u16;
        self.cover_height = COVER_HEIGHT as u16;
        fill_all(&mut self.cover_bits, 0u8);
    }

    /// Drops the typeset section; the text bytes stay but count for nothing.
    pub fn clear_lines(&mut self)
        requires
            old(self).wf(),
        ensures
            final(self).wf(),
            final(self).lines_are_clear(),
            final(self).text@ == old(self).text@,
            Self::same_catalog(&*final(self), &*old(self)),
            Self::same_book(&*final(self), &*old(self)),
            Self::same_cover(&*final(self), &*old(self)),
            Self::same_toc(&*final(self), &*old(self)),
    {
        self.text_len = 0;
        self.block_count = 0;
        self.page_count = 0;
        self.section_partial = false;
        fill_all(&mut self.blocks, new_block_record());
        fill_all(&mut self.block_styles, FontStyle::Regular);
        fill_all(&mut self.block_spine, 0u16);
        fill_all(&mut self.block_page_break_before, false);
        fill_all(&mut self.block_paragraph_end, true);
        fill_all(&mut self.pages, new_page_record());
        fill_all(&mut self.page_spine, 0u16);
    }

    /// Marks the next block to start a new page, when there is a block
    /// before it and room for it.
    pub fn force_next_block_to_new_page(&mut self)
        requires
            old(self).wf(),
        ensures
            final(self).wf(),
            final(self).block_page_break_before@ == if 0 < old(self).block_count
                < MAX_READER_BLOCKS {
                old(self).block_page_break_before@.update(old(self).block_count as int, true)
            } else {
                old(self).block_page_break_before@
            },
            final(self).section_partial == old(self).section_partial,
            final(self).text@ == old(self).text@,
            final(self).text_len == old(self).text_len,
            final(self).blocks@ == old(self).blocks@,
            final(self).block_styles@ == old(self).block_styles@,
            final(self).block_spine@ == old(self).block_spine@,
            final(self).block_paragraph_end@ == old(self).block_paragraph_end@,
            final(self).block_count == old(self).block_count,
            final(self).pages@ == old(self).pages@,
            final(self).page_spine@ == old(self).page_spine@,
            final(self).page_count == old(self).page_count,
            Self::same_catalog(&*final(self), &*old(self)),
            Self::same_book(&*final(self), &*old(self)),
            Self::same_cover(&*final(self), &*old(self)),
            Self::same_toc(&*final(self), &*old(self)),
    {
        if self.block_count < self.block_page_break_before.len() && self.block_count > 0 {
            let at = self.block_count;
            self.block_page_break_before.set(at, true);
        }
    }

    /// The record of block `index`, if it is one of the blocks typeset.
    pub fn block_record(&self, index: usize) -> (r: Option<BlockRecord>)
        ensures
            r == if index < self.blocks@.len() && index < self.block_count {
                Some(self.blocks@[index as int])
            } else {
                None
            },
    {
        if index < self.blocks.len() && index < self.block_count {
            Some(self.blocks[index])
        } else {
            None
        }
    }

    /// The style of block `index`; `Regular` past the end.
    pub fn block_style(&self, index: usize) -> (r: FontStyle)
        ensures
            r == if index < self.block_styles@.len() {
                self.block_styles@[index as int]
            } else {
                FontStyle::Regular
            },
    {
        if index < self.block_styles.len() {
            self.block_styles[index]
        } else {
            FontStyle::Regular
        }
    }

    /// The page count the reader shows: the pages typeset (at least one),
    /// plus one more while the section is only partly typeset.
    pub open spec fn advertised_page_count_spec(&self) -> u32 {
        let cached = (if self.page_count >= 1 {
            self.page_count
        } else {
            1usize
        }) as u32;
        if self.section_partial && cached < u32::MAX {
            (cached + 1) as u32
        } else {
            cached
        }
    }

    pub fn advertised_page_count(&self) -> (n: u32)
        requires
            self.wf(),
        ensures
            n == self.advertised_page_count_spec(),
            n >= 1,
    {
        let pages = if self.page_count >= 1 {
            self.page_count
        } else {
            1
        };
        let cached = pages as u32;
        if self.section_partial {
            cached.saturating_add(1)
        } else {
            cached
        }
    }

    pub fn toc_count(&self) -> (n: usize)
        ensures
            n == self.toc_count,
    {
        self.toc_count
    }

    /// The chapter count the reader shows: the larger of the TOC entries and
    /// the pages, capped at 255 and at least 1.
    pub open spec fn chapter_count_for_ui_spec(&self) -> u8 {
        let most = if self.toc_count >= self.page_count {
            self.toc_count
        } else {
            self.page_count
        };
        if most > 255 {
            255
        } else if most < 1 {
            1
        } else {
            most as u8
        }
    }

    pub fn chapter_count_for_ui(&self) -> (n: u8)
        ensures
            n == self.chapter_count_for_ui_spec(),
            n >= 1,
    {
        let most = if self.toc_count >= self.page_count {
            self.toc_count
        } else {
            self.page_count
        };
        let capped = if most > 255 {
            255
        } else {
            most
        };
        let at_least_one = if capped < 1 {
            1
        } else {
            capped
        };
        at_least_one as u8
    }

    pub fn reader_status(&self) -> (r: BookLoadStatus)
        ensures
            r == self.reader_status,
    {
        self.reader_status
    }

    pub fn reader_error(&self) -> (r: &str)
        ensures
            r@ == hstr32(self.error),
    {
        hstr32_as_str(&self.error)
    }

    /// The cover of the book a book id names, when that book is the
    /// selected card entry and its cover is ready.
    pub fn selected_cover(&self, book_id: u32) -> (r: Option<ReaderCover<'_>>)
        requires
            self.wf(),
        ensures
            r is Some <==> (book_id >= 2 && self.current_index == Self::selected_book_index_spec(
                book_id,
            ) && self.cover_ready),
            r matches Some(c) ==> c.width == self.cover_width && c.height == self.cover_height
                && c.stride == COVER_STRIDE && c.bits@ == self.cover_bits@,
    {
        if book_id < 2 {
            return None;
        }
        let selected = Self::selected_book_index(book_id);
        let same = match (self.current_index, selected) {
            (Some(a), Some(b)) => a == b,
            (None, None) => true,
            _ => false,
        };
        if !same || !self.cover_ready {
            return None;
        }
        Some(
            ReaderCover {
                width: self.cover_width,
                height: self.cover_height,
                stride: COVER_STRIDE as u16,
                bits: self.cover_bits.as_slice(),
            },
        )
    }

    /// The text of block `index` (empty past the end or when unreadable).
    pub open spec fn block_text_spec(&self, index: int) -> Seq<char> {
        if 0 <= index < self.blocks@.len() {
            stored_str(
                self.text@,
                self.blocks@[index].text_offset as int,
                self.blocks@[index].text_len as int,
            )
        } else {
            Seq::empty()
        }
    }

    pub fn block_text(&self, index: usize) -> (r: &str)
        ensures
            r@ == self.block_text_spec(index as int),
    {
        proof {
            reveal_strlit("");
        }
        if index >= self.blocks.len() {
            return "";
        }
        let record = self.blocks[index];
        stored_text(self.text.as_slice(), record.text_offset as usize, record.text_len as usize)
    }

    /// The title of TOC entry `index` (empty past the end or when unreadable).
    pub open spec fn toc_title_spec(&self, index: int) -> Seq<char> {
        if 0 <= index < self.toc@.len() {
            stored_str(
                self.toc_text@,
                self.toc@[index].title_offset as int,
                self.toc@[index].title_len as int,
            )
        } else {
            Seq::empty()
        }
    }

    /// The href of TOC entry `index` (empty past the end or when unreadable).
    pub open spec fn toc_href_spec(&self, index: int) -> Seq<char> {
        if 0 <= index < self.toc@.len() {
            stored_str(
                self.toc_text@,
                self.toc@[index].href_offset as int,
                self.toc@[index].href_len as int,
            )
        } else {
            Seq::empty()
        }
    }

    pub fn toc_title(&self, index: usize) -> (r: &str)
        ensures
            r@ == self.toc_title_spec(index as int),
    {
        proof {
            reveal_strlit("");
        }
        if index >= self.toc.len() {
            return "";
        }
        let record = self.toc[index];
        stored_text(
            self.toc_text.as_slice(),
            record.title_offset as usize,
            record.title_len as usize,
        )
    }

    pub fn toc_href(&self, index: usize) -> (r: &str)
        ensures
            r@ == self.toc_href_spec(index as int),
    {
        proof {
            reveal_strlit("");
        }
        if index >= self.toc.len() {
            return "";
        }
        let record = self.toc[index];
        stored_text(
            self.toc_text.as_slice(),
            record.href_offset as usize,
            record.href_len as usize,
        )
    }

    /// TOC entry `index` as the chapter list shows it: its title and its
    /// level, at least 1; `None` past the entries pushed.
    pub fn toc_item(&self, index: usize) -> (r: Option<TocItem<'_>>)
        requires
            self.wf(),
        ensures
            r is Some <==> index < self.toc_count,
            r matches Some(item) ==> item.title@ == self.toc_title_spec(index as int)
                && item.level == if self.toc@[index as int].level >= 1 {
                self.toc@[index as int].level
            } else {
                1u8
            },
    {
        if index >= self.toc_count {
            return None;
        }
        let level = self.toc[index].level;
        Some(TocItem { title: self.toc_title(index), level: if level >= 1 { level } else { 1 } })
    }

    /// The record a pushed TOC entry gets: title then href at `start` in the
    /// TOC text, no anchor, level at least 1.
    pub open spec fn pushed_toc_record(
        start: int,
        title_len: int,
        href_len: int,
        level: u8,
        spine_index: i16,
    ) -> TocRecord {
        TocRecord {
            title_offset: start as u32,
            title_len: title_len as u16,
            href_offset: (start + title_len) as u32,
            href_len: href_len as u16,
            anchor_offset: 0,
            anchor_len: 0,
            level: if level >= 1 {
                level
            } else {
                1
            },
            spine_index,
        }
    }

    /// What `push_toc_record` does: `new` is `old` with the entry pushed and
    /// `r` the answer. Title and href are trimmed, the href cut at its `#`.
    /// A full table answers `false`; an empty title or href is skipped
    /// (answer `true`); entries whose text does not fit answer `false`;
    /// otherwise both texts are appended to the TOC text and the record added.
    pub open spec fn push_toc_record_post(
        old: &Self,
        new: &Self,
        title: Seq<char>,
        href: Seq<char>,
        level: u8,
        spine_index: i16,
        r: bool,
    ) -> bool {
        let t = trimmed(title);
        let h = trimmed(strip_fragment_chars(href));
        let tb = encode_utf8(t);
        let hb = encode_utf8(h);
        let start = old.toc_text_len as int;
        let end = start + tb.len() + hb.len();
        let unchanged = Self::same_catalog(new, old) && Self::same_book(new, old)
            && Self::same_cover(new, old) && Self::same_lines(new, old) && Self::same_toc(
            new,
            old,
        );
        if old.toc_count >= MAX_SD_TOC_ITEMS {
            !r && unchanged
        } else if t.len() == 0 || h.len() == 0 {
            r && unchanged
        } else if end > MAX_SD_TOC_TEXT_BYTES || tb.len() > 0xffff || hb.len() > 0xffff {
            !r && unchanged
        } else {
            &&& r
            &&& new.toc_text@ == old.toc_text@.take(start) + tb + hb + old.toc_text@.skip(end)
            &&& new.toc_text_len == end
            &&& new.toc@ == old.toc@.update(
                old.toc_count as int,
                Self::pushed_toc_record(start, tb.len() as int, hb.len() as int, level, spine_index),
            )
            &&& new.toc_page@ == old.toc_page@
            &&& new.toc_count == old.toc_count + 1
            &&& Self::same_catalog(new, old)
            &&& Self::same_book(new, old)
            &&& Self::same_cover(new, old)
            &&& Self::same_lines(new, old)
        }
    }

    /// Writes `bytes` into the TOC text at `start`.
    fn write_toc_text(&mut self, start: usize, bytes: &[u8])
        requires
            old(self).wf(),
            start + bytes@.len() <= MAX_SD_TOC_TEXT_BYTES,
        ensures
            final(self).wf(),
            final(self).toc_text@ == old(self).toc_text@.take(start as int) + bytes@
                + old(self).toc_text@.skip(start + bytes@.len()),
            final(self).toc_text_len == old(self).toc_text_len,
            final(self).toc@ == old(self).toc@,
            final(self).toc_page@ == old(self).toc_page@,
            final(self).toc_count == old(self).toc_count,
            Self::same_catalog(&*final(self), &*old(self)),
            Self::same_book(&*final(self), &*old(self)),
            Self::same_cover(&*final(self), &*old(self)),
            Self::same_lines(&*final(self), &*old(self)),
    {
        let mut k: usize = 0;
        while k < bytes.len()
            invariant
                self.wf(),
                start + bytes@.len() <= MAX_SD_TOC_TEXT_BYTES,
                k <= bytes@.len(),
                self.toc_text@.len() == old(self).toc_text@.len(),
                forall|i: int|
                    0 <= i < self.toc_text@.len() ==> #[trigger] self.toc_text@[i] == if start <= i
                        < start + k {
                        bytes@[i - start]
                    } else {
                        old(self).toc_text@[i]
                    },
                self.toc_text_len == old(self).toc_text_len,
                self.toc@ == old(self).toc@,
                self.toc_page@ == old(self).toc_page@,
                self.toc_count == old(self).toc_count,
                Self::same_catalog(&*self, &*old(self)),
                Self::same_book(&*self, &*old(self)),
                Self::same_cover(&*self, &*old(self)),
                Self::same_lines(&*self, &*old(self)),
            decreases bytes@.len() - k,
        {
            self.toc_text.set(start + k, bytes[k]);
            k += 1;
        }
        assert(self.toc_text@ =~= old(self).toc_text@.take(start as int) + bytes@
            + old(self).toc_text@.skip(start + bytes@.len()));
    }

    /// Adds a table-of-contents entry; see [`Self::push_toc_record_post`].
    pub fn push_toc_record(&mut self, title: &str, href: &str, level: u8, spine_index: i16) -> (r:
        bool)
        requires
            old(self).wf(),
        ensures
            final(self).wf(),
            Self::push_toc_record_post(
                &*old(self),
                &*final(self),
                title@,
                href@,
                level,
                spine_index,
                r,
            ),
    {
        if self.toc_count >= self.toc.len() {
            return false;
        }
        let title = str_trim(title);
        let href = str_trim(strip_fragment(href));
        if title.is_empty() || href.is_empty() {
            return true;
        }
        let title_start = self.toc_text_len;
        let title_bytes = title.as_bytes();
        let href_start = title_start.saturating_add(title_bytes.len());
        let href_bytes = href.as_bytes();
        let end = href_start.saturating_add(href_bytes.len());
        if end > self.toc_text.len() || title_bytes.len() > 0xffff || href_bytes.len() > 0xffff {
            return false;
        }
        self.write_toc_text(title_start, title_bytes);
        self.write_toc_text(href_start, href_bytes);
        proof {
            let s0 = old(self).toc_text@;
            assert(self.toc_text@ =~= s0.take(title_start as int) + title_bytes@ + href_bytes@
                + s0.skip(end as int));
        }
        self.toc_text_len = end;
        let index = self.toc_count;
        self.toc.set(
            index,
            TocRecord {
                title_offset: title_start as u32,
                title_len: title_bytes.len() as u16,
                href_offset: href_start as u32,
                href_len: href_bytes.len() as u16,
                anchor_offset: 0,
                anchor_len: 0,
                level: if level >= 1 {
                    level
                } else {
                    1
                },
                spine_index,
            },
        );
        self.toc_count = index + 1;
        true
    }
}


impl ReaderStore {
    /// Every TOC entry pushed so far points inside the used TOC text.
    pub open spec fn toc_entries_in_text(&self) -> bool {
        forall|i: int|
            0 <= i < self.toc_count ==> {
                &&& (#[trigger] self.toc@[i]).title_offset + self.toc@[i].title_len
                    <= self.toc_text_len
                &&& self.toc@[i].href_offset + self.toc@[i].href_len <= self.toc_text_len
            }
    }
}

/// The chapter count shown is the larger of the TOC entries and the pages,
/// each capped at 255, and never less than 1: at least each of them, and
/// equal to one of them (or to 1 when both are 0).
pub proof fn chapter_count_covers_toc_and_pages(store: ReaderStore)
    ensures
        ({
            let n = store.chapter_count_for_ui_spec() as int;
            let toc = if store.toc_count > 255 {
                255
            } else {
                store.toc_count as int
            };
            let pages = if store.page_count > 255 {
                255
            } else {
                store.page_count as int
            };
            &&& n >= 1
            &&& n >= toc
            &&& n >= pages
            &&& n <= 255
            &&& (n == toc || n == pages || (n == 1 && toc == 0 && pages == 0))
        }),
{
}

/// The home screen shows the loaded book's own title and author only once
/// it is ready and is the book asked for, each falling back when empty;
/// with the built-in book (ids 0 and 1) the fallbacks show; for a card book
/// that is not ready or not the loaded one, its card entry's name shows with
/// no author, or the fallbacks when the catalog has no such entry.
pub proof fn labels_wait_for_a_ready_book(
    store: ReaderStore,
    book_id: u32,
    fallback_title: Seq<char>,
    fallback_author: Seq<char>,
)
    requires
        store.wf(),
    ensures
        book_id < 2 ==> store.active_book_labels_spec(book_id, fallback_title, fallback_author)
            == (fallback_title, fallback_author),
        book_id >= 2 && store.reader_status != BookLoadStatus::Ready && book_id - 2
            < store.count ==> store.active_book_labels_spec(
            book_id,
            fallback_title,
            fallback_author,
        ) == (hstr64(store.entries@[book_id - 2].display_name), Seq::<char>::empty()),
        book_id >= 2 && store.reader_status != BookLoadStatus::Ready && book_id - 2
            >= store.count ==> store.active_book_labels_spec(
            book_id,
            fallback_title,
            fallback_author,
        ) == (fallback_title, fallback_author),
        book_id >= 2 && store.reader_status == BookLoadStatus::Ready && store.loaded_index
            == Some((book_id - 2) as usize) ==> {
            let labels = store.active_book_labels_spec(book_id, fallback_title, fallback_author);
            &&& (hstr64(store.title).len() > 0 ==> labels.0 == hstr64(store.title))
            &&& (hstr64(store.title).len() == 0 ==> labels.0 == fallback_title)
            &&& (hstr64(store.author).len() > 0 ==> labels.1 == hstr64(store.author))
            &&& (hstr64(store.author).len() == 0 ==> labels.1 == fallback_author)
        },
        book_id >= 2 && store.loaded_index != Some((book_id - 2) as usize) && book_id - 2
            < store.count ==> store.active_book_labels_spec(
            book_id,
            fallback_title,
            fallback_author,
        ) == (hstr64(store.entries@[book_id - 2].display_name), Seq::<char>::empty()),
{
}

/// Pushing a TOC entry whose trimmed title and trimmed, fragment-less href
/// are both non-empty and fit in a table with room succeeds, and reading it
/// back gives exactly those texts, its level (at least 1) and spine index;
/// the TOC text grows by their bytes; the entries pushed before it read as
/// they did; and every entry still points inside the used TOC text.
pub proof fn toc_push_reads_back(
    old: ReaderStore,
    new: ReaderStore,
    title: Seq<char>,
    href: Seq<char>,
    level: u8,
    spine_index: i16,
    r: bool,
)
    requires
        old.wf(),
        ReaderStore::push_toc_record_post(&old, &new, title, href, level, spine_index, r),
    ensures
        new.toc_entries_in_text(),
        forall|i: int|
            0 <= i < old.toc_count ==> new.toc_title_spec(i) == old.toc_title_spec(i)
                && new.toc_href_spec(i) == old.toc_href_spec(i),
        ({
            let t = trimmed(title);
            let h = trimmed(strip_fragment_chars(href));
            let n = old.toc_count as int;
            t.len() > 0 && h.len() > 0 && n < MAX_SD_TOC_ITEMS && old.toc_text_len + encode_utf8(
                t,
            ).len() + encode_utf8(h).len() <= MAX_SD_TOC_TEXT_BYTES ==> {
                &&& r
                &&& new.toc_count == n + 1
                &&& new.toc_title_spec(n) == t
                &&& new.toc_href_spec(n) == h
                &&& new.toc@[n].level == if level >= 1 {
                    level
                } else {
                    1
                }
                &&& new.toc@[n].spine_index == spine_index
                &&& new.toc_text_len == old.toc_text_len + encode_utf8(t).len() + encode_utf8(
                    h,
                ).len()
            }
        }),
{
    let t = trimmed(title);
    let h = trimmed(strip_fragment_chars(href));
    let tb = encode_utf8(t);
    let hb = encode_utf8(h);
    let start = old.toc_text_len as int;
    let end = start + tb.len() + hb.len();
    if new.toc_count == old.toc_count + 1 {
        let c = old.toc_count as int;
        let text = new.toc_text@;
        assert(text.subrange(start, start + tb.len()) =~= tb);
        assert(text.subrange(start + tb.len(), end) =~= hb);
        encode_utf8_valid_utf8(t);
        encode_utf8_valid_utf8(h);
        encode_utf8_decode_utf8(t);
        encode_utf8_decode_utf8(h);
        assert(new.toc@[c].title_offset == start);
        assert(new.toc@[c].title_len == tb.len());
        assert(new.toc@[c].href_offset == start + tb.len());
        assert(new.toc@[c].href_len == hb.len());
        assert forall|i: int| 0 <= i < old.toc_count implies new.toc_title_spec(i)
            == old.toc_title_spec(i) && new.toc_href_spec(i) == old.toc_href_spec(i) by {
            let rec = old.toc@[i];
            assert(new.toc@[i] == rec);
            assert(text.subrange(rec.title_offset as int, rec.title_offset + rec.title_len)
                =~= old.toc_text@.subrange(
                rec.title_offset as int,
                rec.title_offset + rec.title_len,
            ));
            assert(text.subrange(rec.href_offset as int, rec.href_offset + rec.href_len)
                =~= old.toc_text@.subrange(rec.href_offset as int, rec.href_offset + rec.href_len));
        }
        assert forall|i: int| 0 <= i < new.toc_count implies {
            &&& (#[trigger] new.toc@[i]).title_offset + new.toc@[i].title_len <= new.toc_text_len
            &&& new.toc@[i].href_offset + new.toc@[i].href_len <= new.toc_text_len
        } by {
            if i < c {
                assert(new.toc@[i] == old.toc@[i]);
            }
        }
    }
}


/// What the library tells the app: a chapter's first page, or how many
/// books a card scan found.
#[derive(Clone, Copy, Debug, PartialEq, Eq, Structural)]
pub enum LibraryEvent {
    ChapterPage { book_id: u32, chapter: u8, page: u32 },
    Scanned { count: u8 },
}

impl ReaderStore {
    /// `e` holds the given name (when it fits in 64 bytes, else nothing),
    /// open name (when it fits in 16 bytes, else nothing), place, size and hash.
    pub open spec fn entry_holds(
        e: LibraryBookEntry,
        display_name: &str,
        open_name: &str,
        in_books_dir: bool,
        byte_size: u32,
    ) -> bool {
        &&& hstr64(e.display_name) == if utf8_len(display_name@) <= 64 {
            display_name@
        } else {
            Seq::<char>::empty()
        }
        &&& hstr16(e.open_name) == if utf8_len(open_name@) <= 16 {
            open_name@
        } else {
            Seq::<char>::empty()
        }
        &&& e.in_books_dir == in_books_dir
        &&& e.byte_size == byte_size
        &&& e.source_hash == source_hash_spec(display_name.spec_bytes(), byte_size)
    }

    /// Adds a book found on the card; a full catalog (eight books) stays as it is.
    pub fn push(&mut self, display_name: &str, open_name: &str, in_books_dir: bool, byte_size: u32)
        requires
            old(self).wf(),
        ensures
            final(self).wf(),
            Self::same_book(&*final(self), &*old(self)),
            Self::same_cover(&*final(self), &*old(self)),
            Self::same_toc(&*final(self), &*old(self)),
            Self::same_lines(&*final(self), &*old(self)),
            final(self).status == old(self).status,
            final(self).current_index == old(self).current_index,
            old(self).count >= MAX_LIBRARY_BOOKS ==> Self::same_catalog(&*final(self), &*old(self)),
            old(self).count < MAX_LIBRARY_BOOKS ==> {
                &&& final(self).count == old(self).count + 1
                &&& final(self).entries@.len() == old(self).entries@.len()
                &&& forall|i: int|
                    0 <= i < old(self).entries@.len() && i != old(self).count ==> (
                    #[trigger] final(self).entries@[i]) == old(self).entries@[i]
                &&& Self::entry_holds(
                    final(self).entries@[old(self).count as int],
                    display_name,
                    open_name,
                    in_books_dir,
                    byte_size,
                )
            },
    {
        if self.count >= self.entries.len() {
            return;
        }
        let mut entry = LibraryBookEntry::new();
        let _ = hstr64_push_str(&mut entry.display_name, display_name);
        let _ = hstr16_push_str(&mut entry.open_name, open_name);
        entry.in_books_dir = in_books_dir;
        entry.byte_size = byte_size;
        entry.source_hash = source_hash(display_name, byte_size);
        proof {
            assert(utf8_len(Seq::<char>::empty()) == 0);
            assert(Seq::<char>::empty() + display_name@ =~= display_name@);
            assert(Seq::<char>::empty() + open_name@ =~= open_name@);
        }
        let at = self.count;
        self.entries.set(at, entry);
        self.count = at + 1;
    }

    /// The labels the home screen shows for a book: the fallbacks for the
    /// built-in book; the loaded title and author (each falling back when
    /// empty) when this book is loaded and ready; else the card entry's name
    /// and no author; else the fallbacks.
    pub open spec fn active_book_labels_spec(
        &self,
        book_id: u32,
        fallback_title: Seq<char>,
        fallback_author: Seq<char>,
    ) -> (Seq<char>, Seq<char>) {
        if book_id < 2 {
            (fallback_title, fallback_author)
        } else if self.reader_status == BookLoadStatus::Ready && self.loaded_index
            == Self::selected_book_index_spec(book_id) {
            (
                if hstr64(self.title).len() == 0 {
                    fallback_title
                } else {
                    hstr64(self.title)
                },
                if hstr64(self.author).len() == 0 {
                    fallback_author
                } else {
                    hstr64(self.author)
                },
            )
        } else {
            match self.selected_entry(book_id) {
                Some(e) => (hstr64(e.display_name), Seq::empty()),
                None => (fallback_title, fallback_author),
            }
        }
    }

    pub fn active_book_labels<'a>(
        &'a self,
        book_id: u32,
        fallback_title: &'a str,
        fallback_author: &'a str,
    ) -> (r: (&'a str, &'a str))
        ensures
            (r.0@, r.1@) == self.active_book_labels_spec(
                book_id,
                fallback_title@,
                fallback_author@,
            ),
    {
        if book_id < 2 {
            return (fallback_title, fallback_author);
        }
        let selected = Self::selected_book_index(book_id);
        let loaded_is_selected = match (self.loaded_index, selected) {
            (Some(a), Some(b)) => a == b,
            (None, None) => true,
            _ => false,
        };
        if self.reader_status == BookLoadStatus::Ready && loaded_is_selected {
            let stored_title = hstr64_as_str(&self.title);
            let stored_author = hstr64_as_str(&self.author);
            let title = if stored_title.is_empty() {
                fallback_title
            } else {
                stored_title
            };
            let author = if stored_author.is_empty() {
                fallback_author
            } else {
                stored_author
            };
            return (title, author);
        }
        let index = match selected {
            Some(index) => index,
            None => return (fallback_title, fallback_author),
        };
        match self.catalog_entry(index) {
            Some(entry) => {
                proof {
                    reveal_strlit("");
                }
                (hstr64_as_str(&entry.display_name), "")
            },
            None => (fallback_title, fallback_author),
        }
    }
}

/// The chapter-start events for a book: one per TOC entry with its page
/// when the book has a table of contents, else one per page starting on
/// itself; at most 64 and at most 255.
pub open spec fn chapter_page_events_spec(book_id: u32, store: ReaderStore) -> Seq<LibraryEvent> {
    let source = if store.toc_count > 0 {
        store.toc_count
    } else {
        store.page_count
    };
    let n = if source > MAX_SD_TOC_ITEMS {
        MAX_SD_TOC_ITEMS
    } else {
        source
    };
    Seq::new(
        n as nat,
        |i: int|
            LibraryEvent::ChapterPage {
                book_id,
                chapter: i as u8,
                page: if store.toc_count > 0 {
                    store.toc_page@[i] as u32
                } else {
                    i as u32
                },
            },
    )
}

pub fn chapter_page_events(book_id: u32, store: &ReaderStore) -> (events: Vec<LibraryEvent>)
    requires
        store.wf(),
    ensures
        events@ == chapter_page_events_spec(book_id, *store),
{
    let mut events: Vec<LibraryEvent> = Vec::new();
    let from_toc = store.toc_count > 0;
    let source = if from_toc {
        store.toc_count
    } else {
        store.page_count
    };
    let n = if source > MAX_SD_TOC_ITEMS {
        MAX_SD_TOC_ITEMS
    } else {
        source
    };
    let n = if n > 255 {
        255
    } else {
        n
    };
    let mut index: usize = 0;
    while index < n
        invariant
            store.wf(),
            n <= MAX_SD_TOC_ITEMS,
            from_toc == (store.toc_count > 0),
            n == (if source > MAX_SD_TOC_ITEMS {
                MAX_SD_TOC_ITEMS
            } else {
                source
            }),
            source == if from_toc {
                store.toc_count
            } else {
                store.page_count
            },
            index <= n,
            events@ =~= chapter_page_events_spec(book_id, *store).take(index as int),
        decreases n - index,
    {
        let page = if from_toc {
            store.toc_page[index] as u32
        } else {
            index as u32
        };
        events.push(LibraryEvent::ChapterPage { book_id, chapter: index as u8, page });
        index += 1;
    }
    assert(chapter_page_events_spec(book_id, *store).take(n as int) =~= chapter_page_events_spec(
        book_id,
        *store,
    ));
    events
}

/// What `push` stored reads back: the book pushed when the catalog had room
/// is the card entry of book id `count + 2`, and its source identity is its
/// hash and size.
pub proof fn pushed_book_identity(
    old: ReaderStore,
    new: ReaderStore,
    display_name: &str,
    open_name: &str,
    in_books_dir: bool,
    byte_size: u32,
)
    requires
        old.wf(),
        old.count < MAX_LIBRARY_BOOKS,
        new.count == old.count + 1,
        new.entries@.len() == old.entries@.len(),
        ReaderStore::entry_holds(
            new.entries@[old.count as int],
            display_name,
            open_name,
            in_books_dir,
            byte_size,
        ),
    ensures
        ({
            let id = (old.count + 2) as u32;
            &&& new.selected_entry(id) is Some
            &&& new.selected_entry(id)->0.source_hash == source_hash_spec(
                display_name.spec_bytes(),
                byte_size,
            )
            &&& new.selected_entry(id)->0.byte_size == byte_size
        }),
{
}

} // verus!
