use xteink_x4_os::cache::COVER_STRIDE;
use xteink_x4_os::reader_store::{
    chapter_page_events, BookLoadStatus, LibraryEvent, ReaderStore, MAX_LIBRARY_BOOKS,
};
use xteink_x4_os::text::FontStyle;
use xteink_x4_os::textutil::source_hash;

#[test]
fn new_store_is_empty() {
    let store = ReaderStore::new();
    assert_eq!(store.catalog_count(), 0);
    assert!(store.catalog_is_empty());
    assert_eq!(store.toc_count(), 0);
    assert_eq!(store.advertised_page_count(), 1);
    assert_eq!(store.chapter_count_for_ui(), 1);
    assert_eq!(store.reader_status(), BookLoadStatus::Empty);
    assert_eq!(store.reader_error(), "");
    assert!(store.catalog_entry(0).is_none());
    assert_eq!(store.block_style(0), FontStyle::Regular);
    assert!(store.block_record(0).is_none());
}

#[test]
fn push_stores_name_size_and_hash() {
    let mut store = ReaderStore::new();
    store.push("A Tale.epub", "ATALE.EPU", true, 4096);
    assert_eq!(store.catalog_count(), 1);
    let entry = store.catalog_entry(0).unwrap();
    assert_eq!(entry.display_name.as_str(), "A Tale.epub");
    assert_eq!(entry.open_name.as_str(), "ATALE.EPU");
    assert!(entry.in_books_dir);
    assert_eq!(entry.byte_size, 4096);
    assert_eq!(entry.source_hash, source_hash("A Tale.epub", 4096));
    assert_eq!(store.source_identity(2), (source_hash("A Tale.epub", 4096), 4096));
    assert_eq!(store.source_identity(3), (0, 0));
    assert_eq!(store.source_identity(1), (0, 0));
    assert_eq!(store.catalog_entries().len(), 1);
}

#[test]
fn push_drops_names_that_do_not_fit() {
    let mut store = ReaderStore::new();
    let long = "x".repeat(65);
    store.push(&long, "WAY-TOO-LONG-NAME.EPU", false, 1);
    let entry = store.catalog_entry(0).unwrap();
    assert_eq!(entry.display_name.as_str(), "");
    assert_eq!(entry.open_name.as_str(), "");
    assert_eq!(entry.source_hash, source_hash(&long, 1));
}

#[test]
fn full_catalog_ignores_more_books() {
    let mut store = ReaderStore::new();
    for i in 0..10u32 {
        store.push("book.epub", "BOOK.EPU", false, i);
    }
    assert_eq!(store.catalog_count(), MAX_LIBRARY_BOOKS);
    assert_eq!(store.catalog_count_u8(), 8);
    assert_eq!(store.catalog_entry(7).unwrap().byte_size, 7);
    assert!(store.catalog_entry(8).is_none());
}

#[test]
fn selection_and_clearing() {
    let mut store = ReaderStore::new();
    store.push("a.epub", "A.EPU", false, 1);
    store.set_current_index(3);
    assert_eq!(store.current_index, None);
    store.set_current_index(0);
    assert_eq!(store.current_index, Some(0));
    store.clear_catalog();
    assert_eq!(store.catalog_count(), 0);
    assert_eq!(store.current_index, None);
    assert_eq!(store.entries[0].display_name.as_str(), "");
}

#[test]
fn selected_book_index_maps_ids_to_entries() {
    assert_eq!(ReaderStore::selected_book_index(0), None);
    assert_eq!(ReaderStore::selected_book_index(1), None);
    assert_eq!(ReaderStore::selected_book_index(2), Some(0));
    assert_eq!(ReaderStore::selected_book_index(9), Some(7));
}

#[test]
fn toc_entries_read_back_trimmed_without_fragment() {
    let mut store = ReaderStore::new();
    assert!(store.push_toc_record("  Chapter One \n", " ch1.xhtml#start ", 0, 3));
    assert!(store.push_toc_record("Chapter Two", "ch2.xhtml", 2, -1));
    assert_eq!(store.toc_count(), 2);
    assert_eq!(store.toc_title(0), "Chapter One");
    assert_eq!(store.toc_href(0), "ch1.xhtml");
    assert_eq!(store.toc_title(1), "Chapter Two");
    assert_eq!(store.toc_href(1), "ch2.xhtml");
    let item = store.toc_item(0).unwrap();
    assert_eq!(item.title, "Chapter One");
    assert_eq!(item.level, 1);
    assert_eq!(store.toc_item(1).unwrap().level, 2);
    assert!(store.toc_item(2).is_none());
    assert_eq!(store.toc[0].spine_index, 3);
    assert_eq!(store.toc_text_len, "Chapter One".len() + "ch1.xhtml".len() + "Chapter Two".len() + "ch2.xhtml".len());
    assert_eq!(store.toc_title(999), "");
}

#[test]
fn toc_skips_empty_and_refuses_overflow() {
    let mut store = ReaderStore::new();
    assert!(store.push_toc_record("   ", "a.xhtml", 1, 0));
    assert!(store.push_toc_record("Title", "#only-fragment", 1, 0));
    assert_eq!(store.toc_count(), 0);
    let huge = "y".repeat(5000);
    assert!(!store.push_toc_record(&huge, "a.xhtml", 1, 0));
    assert_eq!(store.toc_count(), 0);
    for i in 0..64 {
        assert!(store.push_toc_record("T", "h", 1, i as i16));
    }
    assert!(!store.push_toc_record("T", "h", 1, 0));
    assert_eq!(store.toc_count(), 64);
    assert_eq!(store.chapter_count_for_ui(), 64);
    store.clear_toc();
    assert_eq!(store.toc_count(), 0);
    assert_eq!(store.toc_text_len, 0);
    assert_eq!(store.toc_title(0), "");
}

#[test]
fn block_text_reads_valid_utf8_only() {
    let mut store = ReaderStore::new();
    store.text[0..5].copy_from_slice(b"hello");
    store.text[5] = 0xff;
    store.blocks[0].text_offset = 0;
    store.blocks[0].text_len = 5;
    store.blocks[1].text_offset = 3;
    store.blocks[1].text_len = 3;
    store.blocks[2].text_offset = 16380;
    store.blocks[2].text_len = 10;
    store.block_count = 3;
    assert_eq!(store.block_text(0), "hello");
    assert_eq!(store.block_text(1), "");
    assert_eq!(store.block_text(2), "");
    assert_eq!(store.block_text(400), "");
    assert_eq!(store.block_record(1).unwrap().text_offset, 3);
    assert!(store.block_record(3).is_none());
    store.clear_lines();
    assert_eq!(store.block_count, 0);
    assert_eq!(store.blocks[0].text_len, 0);
    assert!(store.block_paragraph_end[0]);
}

#[test]
fn page_counts_for_the_reader() {
    let mut store = ReaderStore::new();
    store.page_count = 5;
    assert_eq!(store.advertised_page_count(), 5);
    store.section_partial = true;
    assert_eq!(store.advertised_page_count(), 6);
    assert_eq!(store.chapter_count_for_ui(), 5);
}

#[test]
fn forcing_a_page_break() {
    let mut store = ReaderStore::new();
    store.force_next_block_to_new_page();
    assert!(!store.block_page_break_before[0]);
    store.block_count = 2;
    store.force_next_block_to_new_page();
    assert!(store.block_page_break_before[2]);
    assert!(!store.block_page_break_before[1]);
}

#[test]
fn labels_for_the_home_screen() {
    let mut store = ReaderStore::new();
    assert_eq!(store.active_book_labels(1, "Guide", "Me"), ("Guide", "Me"));
    assert_eq!(store.active_book_labels(2, "Guide", "Me"), ("Guide", "Me"));
    store.push("dune.epub", "DUNE.EPU", true, 9);
    assert_eq!(store.active_book_labels(2, "Guide", "Me"), ("dune.epub", ""));
    store.reader_status = BookLoadStatus::Ready;
    store.loaded_index = Some(0);
    assert_eq!(store.active_book_labels(2, "Guide", "Me"), ("Guide", "Me"));
    store.title.push_str("Dune").unwrap();
    store.author.push_str("Herbert").unwrap();
    assert_eq!(store.active_book_labels(2, "Guide", "Me"), ("Dune", "Herbert"));
    assert_eq!(store.active_book_labels(3, "Guide", "Me"), ("Guide", "Me"));
}

#[test]
fn cover_only_for_the_selected_book() {
    let mut store = ReaderStore::new();
    store.push("a.epub", "A.EPU", false, 1);
    assert!(store.selected_cover(2).is_none());
    store.set_current_index(0);
    assert!(store.selected_cover(2).is_none());
    store.cover_ready = true;
    store.cover_bits[0] = 0xaa;
    let cover = store.selected_cover(2).unwrap();
    assert_eq!(cover.stride as usize, COVER_STRIDE);
    assert_eq!(cover.bits[0], 0xaa);
    assert!(store.selected_cover(1).is_none());
    assert!(store.selected_cover(3).is_none());
    store.clear_cover();
    assert!(store.selected_cover(2).is_none());
    assert_eq!(store.cover_bits[0], 0);
}

#[test]
fn chapter_pages_from_toc_or_pages() {
    let mut store = ReaderStore::new();
    store.page_count = 3;
    let events = chapter_page_events(7, &store);
    assert_eq!(
        events,
        vec![
            LibraryEvent::ChapterPage { book_id: 7, chapter: 0, page: 0 },
            LibraryEvent::ChapterPage { book_id: 7, chapter: 1, page: 1 },
            LibraryEvent::ChapterPage { book_id: 7, chapter: 2, page: 2 },
        ]
    );
    assert!(store.push_toc_record("One", "1.xhtml", 1, 0));
    assert!(store.push_toc_record("Two", "2.xhtml", 1, 1));
    store.toc_page[1] = 12;
    let events = chapter_page_events(7, &store);
    assert_eq!(
        events,
        vec![
            LibraryEvent::ChapterPage { book_id: 7, chapter: 0, page: 0 },
            LibraryEvent::ChapterPage { book_id: 7, chapter: 1, page: 12 },
        ]
    );
    let empty = ReaderStore::new();
    assert!(chapter_page_events(1, &empty).is_empty());
}

#[test]
fn toc_trims_unicode_white_space() {
    let mut store = ReaderStore::new();
    assert!(store.push_toc_record("\u{3000}\u{a0}Intro\u{2029}\t", "\u{85}intro.xhtml#top", 0, 2));
    assert_eq!(store.toc_title(0), "Intro");
    assert_eq!(store.toc_href(0), "intro.xhtml");
    assert_eq!(store.toc_item(0).unwrap().level, 1);
    assert_eq!(store.toc_text_len, "Intro".len() + "intro.xhtml".len());
    assert!(store.push_toc_record("\u{200b}Zero", "z.xhtml", 2, 3));
    assert_eq!(store.toc_title(1), "\u{200b}Zero");
    assert_eq!(store.toc_title(0), "Intro");
}
