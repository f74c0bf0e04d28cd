use xteink_x4_os::upload::{after_read, keeps_streaming, next_read_end};
use xteink_x4_os::decimal::{fmt_percent, fmt_u32, push_bytes, push_number};
use xteink_x4_os::text::{FontStyle, TextAlign, TextBlock, TextRole};
use xteink_x4_os::textutil::{source_hash, strip_fragment};
use xteink_x4_os::upload::{
    empty_upload_chunk, finish_chunk, leftover_len, read_window, sanitized_name,
};

#[test]
fn sanitized_name_keeps_eight_alphanumerics_uppercased() {
    assert_eq!(sanitized_name("My Book.epub").as_str(), "MYBOOK.EPU");
    assert_eq!(sanitized_name("abcdefghijk.epub").as_str(), "ABCDEFGH.EPU");
    assert_eq!(sanitized_name("a1-b2_c3.epub").as_str(), "A1B2C3.EPU");
}

#[test]
fn sanitized_name_cuts_at_the_last_dot() {
    assert_eq!(sanitized_name("a.b.c.epub").as_str(), "ABC.EPU");
    assert_eq!(sanitized_name("noext").as_str(), "NOEXT.EPU");
    assert_eq!(sanitized_name("x.").as_str(), "X.EPU");
}

#[test]
fn sanitized_name_defaults_to_book() {
    assert_eq!(sanitized_name("").as_str(), "BOOK.EPU");
    assert_eq!(sanitized_name(".epub").as_str(), "BOOK.EPU");
    assert_eq!(sanitized_name("Война и мир.epub").as_str(), "BOOK.EPU");
    assert_eq!(sanitized_name("---.epub").as_str(), "BOOK.EPU");
}

#[test]
fn upload_chunk_bookkeeping() {
    assert_eq!(leftover_len(500, 100), 100);
    assert_eq!(leftover_len(50, 100), 50);
    assert_eq!(read_window(4096, 10), 10);
    assert_eq!(read_window(4096, 10_000), 4096);
    let (left, chunk) = finish_chunk(None, 10_000, 4096, false);
    assert_eq!(left, 5904);
    assert!(!chunk.last && !chunk.abort && chunk.len == 4096);
    let (left, chunk) = finish_chunk(None, 100, 100, false);
    assert_eq!(left, 0);
    assert!(chunk.last && !chunk.abort);
    let (left, chunk) = finish_chunk(None, 100, 40, true);
    assert_eq!(left, 60);
    assert!(!chunk.last && chunk.abort);
    let empty = empty_upload_chunk();
    assert!(empty.buffer.is_none() && empty.len == 0 && empty.last && empty.abort);
}

#[test]
fn strip_fragment_cuts_at_hash() {
    assert_eq!(strip_fragment("ch1.xhtml#sec2"), "ch1.xhtml");
    assert_eq!(strip_fragment("ch1.xhtml"), "ch1.xhtml");
    assert_eq!(strip_fragment("#top"), "");
    assert_eq!(strip_fragment("é.xhtml#a#b"), "é.xhtml");
}

#[test]
fn source_hash_is_fnv1a_of_path_and_size() {
    assert_eq!(source_hash("", 0), 1268118805);
    assert_eq!(source_hash("/books/a.epub", 1234), 3754430358);
    assert_eq!(source_hash("x", 0), 3705049591);
    assert_ne!(source_hash("/books/a.epub", 1234), source_hash("/books/a.epub", 1235));
}

#[test]
fn fmt_u32_writes_decimal() {
    let mut buf = [0u8; 10];
    assert_eq!(fmt_u32(0, &mut buf), "0");
    assert_eq!(fmt_u32(7, &mut buf), "7");
    assert_eq!(fmt_u32(1204, &mut buf), "1204");
    assert_eq!(fmt_u32(u32::MAX, &mut buf), "4294967295");
}

#[test]
fn fmt_percent_appends_sign() {
    let mut buf = [0u8; 10];
    assert_eq!(fmt_percent(0, &mut buf), "0%");
    assert_eq!(fmt_percent(42, &mut buf), "42%");
    assert_eq!(fmt_percent(255, &mut buf), "255%");
}

#[test]
fn push_bytes_and_numbers_stop_at_the_end() {
    let mut buf = [b'.'; 8];
    let mut cursor = 0usize;
    push_bytes(&mut buf, &mut cursor, "ab");
    push_number(&mut buf, &mut cursor, 12345);
    assert_eq!(cursor, 7);
    assert_eq!(&buf, b"ab12345.");
    push_number(&mut buf, &mut cursor, 678);
    assert_eq!(cursor, 8);
    assert_eq!(&buf, b"ab123456");
    push_bytes(&mut buf, &mut cursor, "zz");
    assert_eq!(cursor, 8);
    let mut zero = [0u8; 3];
    let mut at = 1usize;
    push_number(&mut zero, &mut at, 0);
    assert_eq!(zero, [0, b'0', 0]);
    assert_eq!(at, 2);
    let mut big = [0u8; 20];
    let mut at = 0usize;
    push_number(&mut big, &mut at, 18446744073709551615);
    assert_eq!(&big, b"18446744073709551615");
}

#[test]
fn text_block_keeps_its_parts() {
    let text: heapless::String<16> = heapless::String::try_from("Hello").unwrap();
    let block = TextBlock::new(text, TextRole::Heading1, FontStyle::Bold, TextAlign::Center);
    assert_eq!(block.text.as_str(), "Hello");
    assert_eq!(block.role, TextRole::Heading1);
    assert_eq!(block.style, FontStyle::Bold);
    assert_eq!(block.align, TextAlign::Center);
}

#[test]
fn upload_names_are_8_3_shaped() {
    let inputs = ["", "ÄÖÜ.epub", "über-große datei (1).EPUB", "....", "a", "0123456789abcdef", "名前.epub"];
    for input in inputs {
        let name = sanitized_name(input);
        let text = name.as_str();
        assert!(text.len() >= 5 && text.len() <= 12, "{}", text);
        assert!(text.ends_with(".EPU"), "{}", text);
        let stem = &text[..text.len() - 4];
        assert!(stem.bytes().all(|b| b.is_ascii_uppercase() || b.is_ascii_digit()), "{}", text);
    }
    assert_eq!(sanitized_name("名前.epub").as_str(), "BOOK.EPU");
    assert_eq!(sanitized_name("über-große datei (1).EPUB").as_str(), "BERGROED.EPU");
}

#[test]
fn chunks_close_the_body_once() {
    let content_length = 10_000usize;
    let mut remaining = content_length;
    let mut sum = 0usize;
    let mut lasts = Vec::new();
    for len in [4096usize, 4096, 1808] {
        let (left, chunk) = finish_chunk(None, remaining, len, false);
        sum += chunk.len;
        lasts.push(chunk.last);
        remaining = left;
    }
    assert_eq!(sum, content_length);
    assert_eq!(remaining, 0);
    assert_eq!(lasts, vec![false, false, true]);
    let (left, chunk) = finish_chunk(None, 100, 40, true);
    assert_eq!(left, 60);
    assert!(!chunk.last);
    assert!(chunk.abort);
}

#[test]
fn stream_steps_read_into_the_owed_window() {
    assert!(keeps_streaming(1, false));
    assert!(!keeps_streaming(0, false));
    assert!(!keeps_streaming(10, true));
    assert_eq!(next_read_end(0, 4096, 10_000), Some(4096));
    assert_eq!(next_read_end(100, 4096, 1808), Some(1808));
    assert_eq!(next_read_end(4096, 4096, 10_000), None);
    assert_eq!(next_read_end(1808, 4096, 1808), None);
    assert_eq!(after_read(100, 1808, Some(500)), (600, false));
    assert_eq!(after_read(100, 1808, Some(1708)), (1808, false));
    assert_eq!(after_read(100, 1808, Some(0)), (100, true));
    assert_eq!(after_read(100, 1808, None), (100, true));
    assert_eq!(after_read(100, 1808, Some(1709)), (100, true));
}

#[test]
fn formatted_digits_stay_in_the_buffer() {
    let mut buf = [0xAAu8; 10];
    assert_eq!(fmt_u32(1070, &mut buf), "1070");
    assert_eq!(&buf[6..], b"1070");
    assert_eq!(&buf[..6], &[0xAA; 6]);
    let mut buf = [0u8; 10];
    assert_eq!(fmt_u32(4294967295, &mut buf), "4294967295");
    assert_eq!(&buf, b"4294967295");
    let mut buf = [0xAAu8; 10];
    assert_eq!(fmt_percent(85, &mut buf), "85%");
    assert_eq!(&buf[..3], b"85%");
    assert_eq!(&buf[3..], &[0xAA; 7]);
}
