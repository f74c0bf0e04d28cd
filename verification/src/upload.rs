//! Browser-to-shelf book upload: the 8.3 name a browser filename becomes,
//! and the chunk that carries book bytes to the card writer.
use vstd::prelude::*;
use vstd::utf8::*;
use vstd::string::*;
use crate::hstring::{hstr12, hstr12_as_str, hstr12_new, hstr12_push, hstr12_push_str};

verus! {

/// 8.3 names cap at twelve characters.
pub type UploadName = heapless::String<12>;

/// Announces an upload and the 8.3 name it is written under.
pub struct UploadBegin {
    pub name: UploadName,
}

/// One piece of an uploaded book on its way to the card writer.
pub struct UploadChunk {
    /// `None` only on aborts that have no buffer left to hand over.
    pub buffer: Option<&'static mut [u8]>,
    pub len: usize,
    pub last: bool,
    pub abort: bool,
}

/// ASCII letters and digits.
pub open spec fn is_ascii_alnum(b: u8) -> bool {
    (0x30 <= b <= 0x39) || (0x41 <= b <= 0x5a) || (0x61 <= b <= 0x7a)
}

/// The ASCII upper-case form of a byte; other bytes stay as they are.
pub open spec fn ascii_upper(b: u8) -> u8 {
    if 0x61 <= b <= 0x7a {
        (b - 0x20) as u8
    } else {
        b
    }
}

/// The index of the last `b` in `bytes`, if there is one.
pub open spec fn last_index_of(bytes: Seq<u8>, b: u8) -> Option<int>
    decreases bytes.len(),
{
    if bytes.len() == 0 {
        None
    } else if bytes.last() == b {
        Some(bytes.len() - 1)
    } else {
        last_index_of(bytes.drop_last(), b)
    }
}

/// The part of a file name before its last dot (all of it when there is none).
pub open spec fn name_stem(bytes: Seq<u8>) -> Seq<u8> {
    match last_index_of(bytes, 0x2e) {
        Some(i) => bytes.take(i),
        None => bytes,
    }
}

/// The ASCII letters and digits of `stem`, upper-cased, in order.
pub open spec fn stem_letters(stem: Seq<u8>) -> Seq<char> {
    stem.filter_map(|b: u8| if is_ascii_alnum(b) { Some(ascii_upper(b) as char) } else { None })
}

/// At most the first `n` items of `s`.
pub open spec fn first_n<A>(s: Seq<A>, n: nat) -> Seq<A> {
    if s.len() <= n {
        s
    } else {
        s.take(n as int)
    }
}

/// The upload name for a browser filename given by its UTF-8 bytes: the first
/// eight ASCII letters and digits of the stem, upper-cased (`BOOK` when there
/// are none), then `.EPU`.
pub open spec fn upload_name(bytes: Seq<u8>) -> Seq<char> {
    let kept = first_n(stem_letters(name_stem(bytes)), 8);
    (if kept.len() == 0 {
        seq!['B', 'O', 'O', 'K']
    } else {
        kept
    }) + seq!['.', 'E', 'P', 'U']
}

proof fn lemma_stem_letters_ascii(stem: Seq<u8>)
    ensures
        is_ascii_chars(stem_letters(stem)),
        stem_letters(stem).len() <= stem.len(),
    decreases stem.len(),
{
    if stem.len() > 0 {
        lemma_stem_letters_ascii(stem.drop_last());
    }
}

/// Once eight letters are found, more of the stem does not change the first eight.
proof fn lemma_first_eight_stable(stem: Seq<u8>, i: int, j: int)
    requires
        0 <= i <= j <= stem.len(),
        stem_letters(stem.take(i)).len() >= 8,
    ensures
        first_n(stem_letters(stem.take(j)), 8) == first_n(stem_letters(stem.take(i)), 8),
    decreases j - i,
{
    if j > i {
        lemma_first_eight_stable(stem, i, j - 1);
        assert(stem.take(j).drop_last() == stem.take(j - 1));
        lemma_letters_grow(stem, i, j - 1);
    }
}

proof fn lemma_letters_grow(stem: Seq<u8>, i: int, j: int)
    requires
        0 <= i <= j <= stem.len(),
    ensures
        stem_letters(stem.take(i)).len() <= stem_letters(stem.take(j)).len(),
        stem_letters(stem.take(j)).take(stem_letters(stem.take(i)).len() as int)
            == stem_letters(stem.take(i)),
    decreases j - i,
{
    if j > i {
        lemma_letters_grow(stem, i, j - 1);
        assert(stem.take(j).drop_last() == stem.take(j - 1));
    } else {
        assert(stem_letters(stem.take(j)).take(stem_letters(stem.take(i)).len() as int)
            == stem_letters(stem.take(i)));
    }
}

/// An ASCII upper-case letter or a digit.
pub open spec fn is_upper_alnum_char(c: char) -> bool {
    ('0' <= c && c <= '9') || ('A' <= c && c <= 'Z')
}

proof fn lemma_stem_letters_upper(stem: Seq<u8>)
    ensures
        forall|k: int|
            0 <= k < stem_letters(stem).len() ==> is_upper_alnum_char(
                #[trigger] stem_letters(stem)[k],
            ),
    decreases stem.len(),
{
    if stem.len() > 0 {
        lemma_stem_letters_upper(stem.drop_last());
        let b = stem.last();
        let rest = stem_letters(stem.drop_last());
        if is_ascii_alnum(b) {
            let c = ascii_upper(b) as char;
            assert(stem_letters(stem) == rest + seq![c]);
            assert(is_upper_alnum_char(c));
            assert forall|k: int| 0 <= k < stem_letters(stem).len() implies is_upper_alnum_char(
                #[trigger] stem_letters(stem)[k],
            ) by {
                if k < rest.len() {
                    assert(stem_letters(stem)[k] == rest[k]);
                }
            }
        } else {
            assert(stem_letters(stem) == rest);
        }
    }
}

/// Every upload name is an 8.3 name: one to eight ASCII upper-case letters
/// or digits, then `.EPU`; twelve characters at most.
pub proof fn upload_names_are_8_3(bytes: Seq<u8>)
    ensures
        5 <= upload_name(bytes).len() <= 12,
        upload_name(bytes).skip(upload_name(bytes).len() - 4) == seq!['.', 'E', 'P', 'U'],
        forall|k: int|
            0 <= k < upload_name(bytes).len() - 4 ==> is_upper_alnum_char(
                #[trigger] upload_name(bytes)[k],
            ),
{
    let letters = stem_letters(name_stem(bytes));
    let kept = first_n(letters, 8);
    lemma_stem_letters_upper(name_stem(bytes));
    let stem: Seq<char> = if kept.len() == 0 {
        seq!['B', 'O', 'O', 'K']
    } else {
        kept
    };
    assert(upload_name(bytes) == stem + seq!['.', 'E', 'P', 'U']);
    assert((stem + seq!['.', 'E', 'P', 'U']).skip(stem.len() as int) =~= seq!['.', 'E', 'P', 'U']);
    assert forall|k: int| 0 <= k < stem.len() implies is_upper_alnum_char(
        #[trigger] stem[k],
    ) by {
        if kept.len() != 0 {
            assert(kept[k] == letters[k]);
        }
    }
    assert forall|k: int| 0 <= k < upload_name(bytes).len() - 4 implies is_upper_alnum_char(
        #[trigger] upload_name(bytes)[k],
    ) by {
        assert(upload_name(bytes)[k] == stem[k]);
    }
}

/// The card scan finds every uploaded book: the UTF-8 bytes of each upload
/// name end in `.EPU`, which the scan accepts as an EPUB name.
pub proof fn uploads_are_found_by_the_scan(bytes: Seq<u8>)
    ensures
        crate::shell::is_epub_name_spec(encode_utf8(upload_name(bytes))),
{
    upload_names_are_8_3(bytes);
    let name = upload_name(bytes);
    let n = name.len() as int;
    assert(is_ascii_chars(name)) by {
        assert forall|i: int| 0 <= i < name.len() implies '\0' <= #[trigger] name[i] <= '\u{7f}' by {
            if i < n - 4 {
                assert(is_upper_alnum_char(name[i]));
            } else {
                assert(name[i] == name.skip(n - 4)[i - (n - 4)]);
            }
        }
    }
    is_ascii_chars_encode_utf8(name);
    let enc = encode_utf8(name);
    assert(name[n - 4] == name.skip(n - 4)[0]);
    assert(name[n - 3] == name.skip(n - 4)[1]);
    assert(name[n - 2] == name.skip(n - 4)[2]);
    assert(name[n - 1] == name.skip(n - 4)[3]);
    assert(enc[n - 4] == 0x2e);
    assert(enc[n - 3] == 0x45);
    assert(enc[n - 2] == 0x50);
    assert(enc[n - 1] == 0x55);
}

fn is_ascii_alphanumeric(b: u8) -> (r: bool)
    ensures
        r == is_ascii_alnum(b),
{
    (0x30 <= b && b <= 0x39) || (0x41 <= b && b <= 0x5a) || (0x61 <= b && b <= 0x7a)
}

fn to_ascii_uppercase(b: u8) -> (r: u8)
    ensures
        r == ascii_upper(b),
{
    if 0x61 <= b && b <= 0x7a {
        b - 0x20
    } else {
        b
    }
}

/// The number of bytes before the last dot of `bytes`, or all of them.
fn stem_len(bytes: &[u8]) -> (n: usize)
    ensures
        n <= bytes@.len(),
        bytes@.take(n as int) == name_stem(bytes@),
{
    let mut i = bytes.len();
    assert(bytes@.take(i as int) == bytes@);
    while i > 0
        invariant
            i <= bytes@.len(),
            last_index_of(bytes@, 0x2e) == last_index_of(bytes@.take(i as int), 0x2e),
        decreases i,
    {
        assert(bytes@.take(i as int).drop_last() == bytes@.take(i - 1));
        if bytes[i - 1] == 0x2e {
            assert(bytes@.take((i - 1) as int) == bytes@.take(i as int).take((i - 1) as int));
            return i - 1;
        }
        i -= 1;
    }
    assert(bytes@.take(bytes@.len() as int) == bytes@);
    bytes.len()
}

/// Derives an 8.3 upload name from a browser filename: keep the first
/// eight ASCII alphanumerics of the stem uppercased, default to BOOK,
/// extension `.EPU` (which the catalog scan accepts alongside `.epub`).
pub fn sanitized_name(client_name: &str) -> (name: UploadName)
    ensures
        hstr12(name) == upload_name(client_name.spec_bytes()),
{
    let bytes = client_name.as_bytes();
    let stem_end = stem_len(bytes);
    let ghost stem = name_stem(bytes@);
    let mut name = hstr12_new();
    let mut i: usize = 0;
    while i < stem_end
        invariant_except_break
            i <= stem_end,
            hstr12(name) == first_n(stem_letters(stem.take(i as int)), 8),
        invariant
            stem_end <= bytes@.len(),
            stem == bytes@.take(stem_end as int),
            stem.take(stem_end as int) == stem,
            is_ascii_chars(hstr12(name)),
            hstr12(name).len() <= 8,
        ensures
            hstr12(name) == first_n(stem_letters(stem), 8),
        decreases stem_end - i,
    {
        proof {
            is_ascii_chars_encode_utf8(hstr12(name));
            lemma_stem_letters_ascii(stem.take(i as int));
        }
        if hstr12_as_str(&name).len() == 8 {
            proof {
                lemma_first_eight_stable(stem, i as int, stem.len() as int);
                assert(stem.take(stem.len() as int) == stem);
            }
            break;
        }
        let byte = bytes[i];
        assert(stem.take(i + 1).drop_last() == stem.take(i as int));
        assert(stem.take(i + 1).last() == byte);
        if is_ascii_alphanumeric(byte) {
            let c = to_ascii_uppercase(byte) as char;
            proof {
                assert(is_ascii_chars(seq![c]));
                is_ascii_chars_encode_utf8(seq![c]);
            }
            let _ = hstr12_push(&mut name, c);
        }
        i += 1;
        proof {
            lemma_stem_letters_ascii(stem.take(i as int));
        }
    }
    proof {
        is_ascii_chars_encode_utf8(hstr12(name));
    }
    if hstr12_as_str(&name).is_empty() {
        let book = "BOOK";
        proof {
            reveal_strlit("BOOK");
            is_ascii_chars_encode_utf8(book@);
        }
        let _ = hstr12_push_str(&mut name, book);
    }
    let ext = ".EPU";
    proof {
        reveal_strlit(".EPU");
        reveal_strlit("BOOK");
        is_ascii_chars_encode_utf8(ext@);
        is_ascii_chars_encode_utf8(hstr12(name));
    }
    let _ = hstr12_push_str(&mut name, ext);
    name
}

/// The body bytes that arrived with the request head and belong to this
/// book: no more than its announced length.
pub fn leftover_len(arrived: usize, content_length: usize) -> (n: usize)
    ensures
        n == if arrived > content_length {
            content_length
        } else {
            arrived
        },
{
    if arrived > content_length {
        content_length
    } else {
        arrived
    }
}

/// How much of a buffer the socket may fill: the buffer, but never past
/// the bytes still owed.
pub fn read_window(buffer_len: usize, remaining: usize) -> (n: usize)
    ensures
        n == if buffer_len < remaining {
            buffer_len
        } else {
            remaining
        },
{
    if buffer_len < remaining {
        buffer_len
    } else {
        remaining
    }
}

/// The upload stream hands out another chunk while bytes are owed and no
/// read has failed.
pub fn keeps_streaming(remaining: usize, failed: bool) -> (r: bool)
    ensures
        r == (remaining > 0 && !failed),
{
    remaining > 0 && !failed
}

/// Where the next socket read into a chunk buffer holding `len` bytes may
/// stop: the buffer's end or the owed bytes, whichever comes first; `None`
/// once the buffer is full or holds everything owed.
pub open spec fn next_read_end_spec(len: usize, buffer_len: usize, remaining: usize) -> Option<
    usize,
> {
    if len < buffer_len && len < remaining {
        Some(
            if buffer_len < remaining {
                buffer_len
            } else {
                remaining
            },
        )
    } else {
        None
    }
}

pub fn next_read_end(len: usize, buffer_len: usize, remaining: usize) -> (r: Option<usize>)
    ensures
        r == next_read_end_spec(len, buffer_len, remaining),
        r matches Some(end) ==> len < end,
{
    if len < buffer_len && len < remaining {
        Some(read_window(buffer_len, remaining))
    } else {
        None
    }
}

/// What one socket read into `[len, end)` of a chunk buffer leaves: the new
/// fill and whether the stream failed. `Some(n)` is a read of `n` bytes,
/// `None` a socket error; a read of nothing (the peer closed) fails the
/// stream, as does a read longer than the room it was given.
pub open spec fn after_read_spec(len: usize, end: usize, read: Option<usize>) -> (usize, bool) {
    match read {
        Some(n) => if 0 < n && n <= end - len {
            ((len + n) as usize, false)
        } else {
            (len, true)
        },
        None => (len, true),
    }
}

pub fn after_read(len: usize, end: usize, read: Option<usize>) -> (r: (usize, bool))
    requires
        len <= end,
    ensures
        r == after_read_spec(len, end, read),
        r.0 <= end,
{
    match read {
        Some(n) => {
            if 0 < n && n <= end - len {
                (len + n, false)
            } else {
                (len, true)
            }
        },
        None => (len, true),
    }
}

/// Filling a chunk buffer never takes it past the bytes owed, and once the
/// reads stop without a failure a non-empty buffer holds at least one byte
/// of a body still owed: the chunk lengths the stream hands out meet the
/// condition of [`chunks_add_up_to_the_body`].
pub proof fn filled_chunks_fit_what_is_owed(
    len: usize,
    buffer_len: usize,
    remaining: usize,
    read: Option<usize>,
)
    requires
        len <= remaining,
    ensures
        next_read_end_spec(len, buffer_len, remaining) matches Some(end) ==> after_read_spec(
            len,
            end,
            read,
        ).0 <= remaining,
        next_read_end_spec(len, buffer_len, remaining) is None && buffer_len > 0 && remaining > 0
            ==> 0 < len,
{
}

/// The bytes still owed after a chunk of `len` bytes, when `remaining`
/// were owed before it.
pub open spec fn owed_after(remaining: int, len: int) -> int {
    if len < remaining {
        remaining - len
    } else {
        0
    }
}

/// The bytes of a `content_length`-byte body still owed after chunks of the
/// given lengths, closed one by one with [`finish_chunk`].
pub open spec fn owed_after_chunks(content_length: int, lens: Seq<usize>) -> int
    decreases lens.len(),
{
    if lens.len() == 0 {
        content_length
    } else {
        owed_after(owed_after_chunks(content_length, lens.drop_last()), lens.last() as int)
    }
}

/// The bytes the chunks carry together.
pub open spec fn chunk_sum(lens: Seq<usize>) -> int
    decreases lens.len(),
{
    if lens.len() == 0 {
        0
    } else {
        chunk_sum(lens.drop_last()) + lens.last()
    }
}

/// A book body streamed in chunks, each carrying at least one byte and no
/// more than is still owed (as the upload stream reads them): the chunks
/// add up to what left the body, the stream is done exactly when they add
/// up to the whole body, and no chunk but the final one can close it, so
/// only the final chunk is marked last.
pub proof fn chunks_add_up_to_the_body(content_length: usize, lens: Seq<usize>)
    requires
        forall|k: int|
            0 <= k < lens.len() ==> 0 < #[trigger] lens[k] <= owed_after_chunks(
                content_length as int,
                lens.take(k),
            ),
    ensures
        owed_after_chunks(content_length as int, lens) == content_length - chunk_sum(lens),
        0 <= chunk_sum(lens) <= content_length,
        (owed_after_chunks(content_length as int, lens) == 0) == (chunk_sum(lens)
            == content_length),
        forall|k: int|
            0 <= k < lens.len() - 1 ==> owed_after_chunks(content_length as int, #[trigger] lens.take(k + 1)) > 0,
    decreases lens.len(),
{
    if lens.len() > 0 {
        let rest = lens.drop_last();
        assert forall|k: int| 0 <= k < rest.len() implies 0 < #[trigger] rest[k]
            <= owed_after_chunks(content_length as int, rest.take(k)) by {
            assert(rest.take(k) == lens.take(k));
            assert(rest[k] == lens[k]);
        }
        chunks_add_up_to_the_body(content_length, rest);
        let last = lens.len() - 1;
        assert(lens.take(last) == rest);
        assert(lens[last] == lens.last());
        assert forall|k: int| 0 <= k < lens.len() - 1 implies owed_after_chunks(
            content_length as int,
            #[trigger] lens.take(k + 1),
        ) > 0 by {
            if k + 1 < last {
                assert(lens.take(k + 1) == rest.take(k + 1));
            } else {
                assert(lens.take(k + 1) == rest);
                assert(0 < lens[last] <= owed_after_chunks(content_length as int, lens.take(last)));
            }
        }
    }
}

/// Closes a chunk of `len` bytes: the bytes still owed afterwards, and the
/// chunk for the writer. The chunk is the last one when nothing is owed any
/// more and no read failed; a failed read aborts the file.
pub fn finish_chunk(buffer: Option<&'static mut [u8]>, remaining: usize, len: usize, failed: bool) -> (r: (usize, UploadChunk))
    ensures
        r.0 == owed_after(remaining as int, len as int),
        r.1.buffer == buffer,
        r.1.len == len,
        r.1.last == (r.0 == 0 && !failed),
        r.1.abort == failed,
{
    let taken = if len < remaining {
        len
    } else {
        remaining
    };
    let left = remaining - taken;
    (left, UploadChunk { buffer, len, last: left == 0 && !failed, abort: failed })
}

/// The chunk that tells the writer to finish an empty file.
pub fn empty_upload_chunk() -> (c: UploadChunk)
    ensures
        c.buffer is None,
        c.len == 0,
        c.last,
        c.abort,
{
    UploadChunk { buffer: None, len: 0, last: true, abort: true }
}

} // verus!
