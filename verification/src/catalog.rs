//! The built-in guide book: its catalog entry, chapters and pages.
use vstd::prelude::*;
use crate::book::{BookId, BookMeta, BookSource, ChapterMeta, CoverStatus};
use crate::text::FontStyle;

verus! {

/// The built-in guide's catalog entry.
pub open spec fn guide_book() -> BookMeta<'static> {
    BookMeta {
        id: BookId(1),
        title: "About This Reader",
        author: "",
        source_path: "/built-in/guide",
        byte_size: 0,
        source: BookSource::BuiltIn,
        cover_status: CoverStatus::Missing,
    }
}

/// The books of the built-in catalog, in order.
pub open spec fn catalog_books() -> Seq<BookMeta<'static>> {
    seq![guide_book()]
}

/// The chapters of the built-in guide, in order.
pub open spec fn catalog_chapters() -> Seq<ChapterMeta<'static>> {
    seq![
        ChapterMeta { title: "Reading", spine_index: 0, source_href: "guide/reading.xhtml" },
        ChapterMeta {
            title: "Adding Books",
            spine_index: 1,
            source_href: "guide/adding-books.xhtml",
        },
        ChapterMeta { title: "Wi-Fi Setup", spine_index: 2, source_href: "guide/wifi-setup.xhtml" },
        ChapterMeta {
            title: "Progress Sync",
            spine_index: 3,
            source_href: "guide/progress-sync.xhtml",
        },
    ]
}

/// The first catalog book whose id is `book_id`, else the first book.
pub open spec fn active_book_spec(book_id: u32) -> BookMeta<'static> {
    if exists|i: int| 0 <= i < catalog_books().len() && (#[trigger] catalog_books()[i]).id.0
        == book_id {
        catalog_books()[choose|i: int|
            0 <= i < catalog_books().len() && (#[trigger] catalog_books()[i]).id.0 == book_id
                && forall|j: int| 0 <= j < i ==> (#[trigger] catalog_books()[j]).id.0 != book_id]
    } else {
        catalog_books()[0]
    }
}

fn guide() -> (b: BookMeta<'static>)
    ensures
        b == guide_book(),
{
    BookMeta {
        id: BookId(1),
        title: "About This Reader",
        author: "",
        source_path: "/built-in/guide",
        byte_size: 0,
        source: BookSource::BuiltIn,
        cover_status: CoverStatus::Missing,
    }
}

/// The book with the given id, falling back to the first catalog book.
pub fn active_book(book_id: u32) -> (b: BookMeta<'static>)
    ensures
        b == active_book_spec(book_id),
{
    let book = guide();
    if book.id.0 == book_id {
        assert(catalog_books()[0] == book);
        assert(forall|j: int| 0 <= j < 0 ==> (#[trigger] catalog_books()[j]).id.0 != book_id);
        let ghost i = choose|i: int|
            0 <= i < catalog_books().len() && (#[trigger] catalog_books()[i]).id.0 == book_id
                && forall|j: int| 0 <= j < i ==> (#[trigger] catalog_books()[j]).id.0 != book_id;
        assert(i == 0);
        book
    } else {
        book
    }
}

pub fn book_at(index: usize) -> (b: Option<BookMeta<'static>>)
    ensures
        b == if index < catalog_books().len() {
            Some(catalog_books()[index as int])
        } else {
            None
        },
{
    if index == 0 {
        Some(guide())
    } else {
        None
    }
}

pub fn book_count() -> (n: u8)
    ensures
        n == catalog_books().len(),
{
    1
}

pub fn chapter_at(index: usize) -> (c: Option<ChapterMeta<'static>>)
    ensures
        c == if index < catalog_chapters().len() {
            Some(catalog_chapters()[index as int])
        } else {
            None
        },
{
    if index == 0 {
        Some(ChapterMeta { title: "Reading", spine_index: 0, source_href: "guide/reading.xhtml" })
    } else if index == 1 {
        Some(
            ChapterMeta {
                title: "Adding Books",
                spine_index: 1,
                source_href: "guide/adding-books.xhtml",
            },
        )
    } else if index == 2 {
        Some(
            ChapterMeta {
                title: "Wi-Fi Setup",
                spine_index: 2,
                source_href: "guide/wifi-setup.xhtml",
            },
        )
    } else if index == 3 {
        Some(
            ChapterMeta {
                title: "Progress Sync",
                spine_index: 3,
                source_href: "guide/progress-sync.xhtml",
            },
        )
    } else {
        None
    }
}

pub fn chapter_count() -> (n: u8)
    ensures
        n == catalog_chapters().len(),
{
    4
}

#[derive(Clone, Copy, Debug, PartialEq, Eq, Structural)]
pub enum ReaderLineStyle {
    Heading,
    Body,
    Italic,
    Bold,
    Quote,
}

/// One paragraph of a built-in guide page, with the gap in pixels after it.
#[derive(Clone, Copy, Debug)]
pub struct ReaderLine {
    pub text: &'static str,
    pub style: ReaderLineStyle,
    pub gap_after: u8,
}

impl ReaderLine {
    pub fn new(text: &'static str, style: ReaderLineStyle, gap_after: u8) -> (r: Self)
        ensures
            r == (ReaderLine { text, style, gap_after }),
    {
        Self { text, style, gap_after }
    }
}

/// The paragraphs of the guide's pages, in order.
pub open spec fn reader_pages_spec() -> Seq<Seq<ReaderLine>> {
    seq![
        seq![
            ReaderLine { text: "Reading", style: ReaderLineStyle::Heading, gap_after: 18 },
            ReaderLine { text: "The two keys under your grip turn pages. On the front column: the top key backs out of any screen, the second confirms, and the lower pair browses.", style: ReaderLineStyle::Body, gap_after: 14 },
            ReaderLine { text: "While reading, confirm opens the chapter list and back returns home.", style: ReaderLineStyle::Body, gap_after: 14 },
            ReaderLine { text: "Your place is saved as you read and restored when the reader wakes.", style: ReaderLineStyle::Italic, gap_after: 0 },
        ],
        seq![
            ReaderLine { text: "Adding Books", style: ReaderLineStyle::Heading, gap_after: 18 },
            ReaderLine { text: "Copy EPUB files into the books folder on the card, or send them from a browser: start sync from home, and once connected the screen shows an address.", style: ReaderLineStyle::Body, gap_after: 14 },
            ReaderLine { text: "Open that address on any computer or phone on the same network to see what is on the card, add books, or remove them.", style: ReaderLineStyle::Body, gap_after: 14 },
            ReaderLine { text: "New books appear after the reader restarts.", style: ReaderLineStyle::Italic, gap_after: 0 },
        ],
        seq![
            ReaderLine { text: "Wi-Fi Setup", style: ReaderLineStyle::Heading, gap_after: 18 },
            ReaderLine { text: "The first time you start sync, the reader opens its own hotspot instead of joining a network.", style: ReaderLineStyle::Body, gap_after: 14 },
            ReaderLine { text: "Scan the code on its screen with your phone, and enter your home network's name and password in the page that appears.", style: ReaderLineStyle::Body, gap_after: 14 },
            ReaderLine { text: "The reader remembers the network on its card; run sync again to connect.", style: ReaderLineStyle::Body, gap_after: 0 },
        ],
        seq![
            ReaderLine { text: "Progress Sync", style: ReaderLineStyle::Heading, gap_after: 18 },
            ReaderLine { text: "Sync exchanges your reading position with a KOReader-compatible server: whichever device read furthest wins.", style: ReaderLineStyle::Body, gap_after: 14 },
            ReaderLine { text: "Read a few pages here, sync, and pick up the same book on your phone or tablet exactly where you stopped.", style: ReaderLineStyle::Body, gap_after: 14 },
            ReaderLine { text: "Sync pauses reading and ends with a quick restart.", style: ReaderLineStyle::Italic, gap_after: 0 },
        ],
    ]
}

/// The paragraphs of guide page `index`.
pub fn reader_page(index: usize) -> (lines: Vec<ReaderLine>)
    requires
        index < reader_pages_spec().len(),
    ensures
        lines@ == reader_pages_spec()[index as int],
{
    if index == 0 {
        let lines = vec![
            ReaderLine::new(
                "Reading",
                ReaderLineStyle::Heading,
                18,
            ),
            ReaderLine::new(
                "The two keys under your grip turn pages. On the front column: the top key backs out of any screen, the second confirms, and the lower pair browses.",
                ReaderLineStyle::Body,
                14,
            ),
            ReaderLine::new(
                "While reading, confirm opens the chapter list and back returns home.",
                ReaderLineStyle::Body,
                14,
            ),
            ReaderLine::new(
                "Your place is saved as you read and restored when the reader wakes.",
                ReaderLineStyle::Italic,
                0,
            ),
        ];
        assert(lines@ =~= reader_pages_spec()[0]);
        lines
    } else if index == 1 {
        let lines = vec![
            ReaderLine::new(
                "Adding Books",
                ReaderLineStyle::Heading,
                18,
            ),
            ReaderLine::new(
                "Copy EPUB files into the books folder on the card, or send them from a browser: start sync from home, and once connected the screen shows an address.",
                ReaderLineStyle::Body,
                14,
            ),
            ReaderLine::new(
                "Open that address on any computer or phone on the same network to see what is on the card, add books, or remove them.",
                ReaderLineStyle::Body,
                14,
            ),
            ReaderLine::new(
                "New books appear after the reader restarts.",
                ReaderLineStyle::Italic,
                0,
            ),
        ];
        assert(lines@ =~= reader_pages_spec()[1]);
        lines
    } else if index == 2 {
        let lines = vec![
            ReaderLine::new(
                "Wi-Fi Setup",
                ReaderLineStyle::Heading,
                18,
            ),
            ReaderLine::new(
                "The first time you start sync, the reader opens its own hotspot instead of joining a network.",
                ReaderLineStyle::Body,
                14,
            ),
            ReaderLine::new(
                "Scan the code on its screen with your phone, and enter your home network's name and password in the page that appears.",
                ReaderLineStyle::Body,
                14,
            ),
            ReaderLine::new(
                "The reader remembers the network on its card; run sync again to connect.",
                ReaderLineStyle::Body,
                0,
            ),
        ];
        assert(lines@ =~= reader_pages_spec()[2]);
        lines
    } else {
        let lines = vec![
            ReaderLine::new(
                "Progress Sync",
                ReaderLineStyle::Heading,
                18,
            ),
            ReaderLine::new(
                "Sync exchanges your reading position with a KOReader-compatible server: whichever device read furthest wins.",
                ReaderLineStyle::Body,
                14,
            ),
            ReaderLine::new(
                "Read a few pages here, sync, and pick up the same book on your phone or tablet exactly where you stopped.",
                ReaderLineStyle::Body,
                14,
            ),
            ReaderLine::new(
                "Sync pauses reading and ends with a quick restart.",
                ReaderLineStyle::Italic,
                0,
            ),
        ];
        assert(lines@ =~= reader_pages_spec()[3]);
        lines
    }
}

/// The number of guide pages.
pub fn reader_page_count() -> (n: usize)
    ensures
        n == reader_pages_spec().len(),
{
    4
}

/// The guide page a chapter shows: chapters wrap around the pages.
pub fn reader_page_index(chapter: u16) -> (i: usize)
    ensures
        i == chapter as int % reader_pages_spec().len() as int,
        i < reader_pages_spec().len(),
{
    (chapter as usize) % reader_page_count()
}

/// How a paragraph of the guide is set: its font style, left edge and line
/// advance in pixels.
pub fn line_layout(style: ReaderLineStyle) -> (r: (FontStyle, i16, i16))
    ensures
        r == match style {
            ReaderLineStyle::Heading => (FontStyle::Bold, 18i16, 34i16),
            ReaderLineStyle::Body => (FontStyle::Regular, 20i16, 28i16),
            ReaderLineStyle::Italic => (FontStyle::Italic, 20i16, 28i16),
            ReaderLineStyle::Bold => (FontStyle::Bold, 20i16, 28i16),
            ReaderLineStyle::Quote => (FontStyle::Italic, 46i16, 28i16),
        },
{
    match style {
        ReaderLineStyle::Heading => (FontStyle::Bold, 18, 34),
        ReaderLineStyle::Body => (FontStyle::Regular, 20, 28),
        ReaderLineStyle::Italic => (FontStyle::Italic, 20, 28),
        ReaderLineStyle::Bold => (FontStyle::Bold, 20, 28),
        ReaderLineStyle::Quote => (FontStyle::Italic, 46, 28),
    }
}

} // verus!
