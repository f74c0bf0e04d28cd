//! The Wi-Fi sync session's decisions: account settings, the kosync
//! progress exchange, the pulled reading position, HTTP framing for the
//! upload page, and the session's course from start to reset.
use vstd::prelude::*;
use vstd::string::*;
use crate::decimal::{all_digits, decimal_digits, decimal_value, is_ascii_digit, lemma_decimal_digits};
use crate::textutil::first_index_of;

verus! {

#[derive(Clone, Copy, Debug, PartialEq, Eq, Structural)]
pub enum SyncError {
    RadioInit,
    Join,
    Dhcp,
    Server,
    Protocol,
}

#[derive(Clone, Copy, Debug, PartialEq, Eq)]
pub enum SyncEvent {
    Connecting,
    Connected([u8; 4]),
    Syncing,
    Done { pushed: bool, pulled: bool },
    Failed(SyncError),
    Serving([u8; 4]),
    PortalUp,
    CredentialsSaved,
}

#[derive(Clone, Copy, Debug, PartialEq, Eq, Structural)]
pub enum SyncCommand {
    Start,
    Exit,
}

/// Station credentials from the build environment: both the network name
/// and the password must be set.
pub fn credentials(ssid: Option<&'static str>, password: Option<&'static str>) -> (r: Option<
    (&'static str, &'static str),
>)
    ensures
        r == match (ssid, password) {
            (Some(s), Some(p)) => Some((s, p)),
            _ => None,
        },
{
    match (ssid, password) {
        (Some(s), Some(p)) => Some((s, p)),
        _ => None,
    }
}

/// The kosync account from the build environment: host (`host` or
/// `host:port`), user and password must all be set.
pub fn kosync_account(
    host: Option<&'static str>,
    user: Option<&'static str>,
    password: Option<&'static str>,
) -> (r: Option<(&'static str, &'static str, &'static str)>)
    ensures
        r == match (host, user, password) {
            (Some(h), Some(u), Some(p)) => Some((h, u, p)),
            _ => None,
        },
{
    match (host, user, password) {
        (Some(h), Some(u), Some(p)) => Some((h, u, p)),
        _ => None,
    }
}

/// `u16`'s `FromStr`: an optional `+`, then one or more ASCII digits whose
/// value fits in 16 bits.
pub open spec fn parse_u16_spec(s: Seq<u8>) -> Option<u16> {
    let digits = if s.len() > 1 && s[0] == 0x2b {
        s.skip(1)
    } else {
        s
    };
    if s.len() > 0 && digits.len() > 0 && all_digits(digits) && decimal_value(digits) <= 0xffff {
        Some(decimal_value(digits) as u16)
    } else {
        None
    }
}

proof fn lemma_value_grows(d: Seq<u8>, i: int, j: int)
    requires
        0 <= i <= j <= d.len(),
        all_digits(d),
    ensures
        decimal_value(d.take(i)) <= decimal_value(d.take(j)),
    decreases j - i,
{
    if i < j {
        lemma_value_grows(d, i, j - 1);
        assert(d.take(j).drop_last() =~= d.take(j - 1));
    }
}

fn parse_u16(s: &[u8]) -> (r: Option<u16>)
    ensures
        r == parse_u16_spec(s@),
{
    if s.len() == 0 {
        return None;
    }
    let start: usize = if s.len() > 1 && s[0] == 0x2b {
        1
    } else {
        0
    };
    let ghost digits = s@.skip(start as int);
    if start >= s.len() {
        return None;
    }
    let mut value: u32 = 0;
    let mut i: usize = start;
    assert(digits.take(0) =~= Seq::<u8>::empty());
    while i < s.len()
        invariant
            start <= i <= s@.len(),
            start < s@.len(),
            digits == s@.skip(start as int),
            digits == if s@.len() > 1 && s@[0] == 0x2b {
                s@.skip(1)
            } else {
                s@
            },
            all_digits(digits.take(i - start)),
            value == decimal_value(digits.take(i - start)),
            value <= 0xffff,
        decreases s@.len() - i,
    {
        let b = s[i];
        let ghost k = i - start;
        assert(digits.take(k + 1).drop_last() =~= digits.take(k));
        assert(digits[k] == b);
        if b < 0x30 || b > 0x39 {
            assert(!is_ascii_digit(digits[k]));
            return None;
        }
        value = value * 10 + (b - 0x30) as u32;
        if value > 0xffff {
            proof {
                assert(all_digits(digits.take(k + 1)));
                if all_digits(digits) {
                    lemma_value_grows(digits, k + 1, digits.len() as int);
                    assert(digits.take(digits.len() as int) =~= digits);
                }
            }
            return None;
        }
        i += 1;
    }
    assert(digits.take(i - start) =~= digits);
    Some(value as u16)
}

/// `host` or `host:port` split at the first `:`: the host bytes and the
/// port, 80 when there is none or it does not parse.
pub open spec fn host_port_split(bytes: Seq<u8>) -> (Seq<u8>, u16) {
    match first_index_of(bytes, 0x3a) {
        Some(i) => (
            bytes.take(i),
            match parse_u16_spec(bytes.skip(i + 1)) {
                Some(p) => p,
                None => 80,
            },
        ),
        None => (bytes, 80),
    }
}

pub fn split_host_port(host_port: &str) -> (r: (&str, u16))
    ensures
        (r.0.spec_bytes(), r.1) == host_port_split(host_port.spec_bytes()),
{
    let bytes = host_port.as_bytes();
    let mut i: usize = 0;
    while i < bytes.len()
        invariant
            i <= bytes@.len(),
            bytes@ == host_port.spec_bytes(),
            forall|k: int| 0 <= k < i ==> bytes@[k] != 0x3a,
        decreases bytes@.len() - i,
    {
        if bytes[i] == 0x3a {
            proof {
                crate::textutil::lemma_first_index_of(bytes@, 0x3a);
                match first_index_of(bytes@, 0x3a) {
                    Some(j) => {
                        assert(j == i);
                    },
                    None => {},
                }
                vstd::utf8::encode_utf8_valid_utf8(host_port@);
                assert(!vstd::utf8::is_continuation_byte(bytes@[i as int]));
                vstd::utf8::is_char_boundary_iff_not_is_continuation_byte(bytes@, i as int);
            }
            let (host, _rest) = host_port.split_at(i);
            let port_bytes = &bytes[i + 1..bytes.len()];
            assert(port_bytes@ =~= bytes@.skip(i + 1));
            let port = match parse_u16(port_bytes) {
                Some(p) => p,
                None => 80,
            };
            return (host, port);
        }
        i += 1;
    }
    proof {
        crate::textutil::lemma_first_index_of(bytes@, 0x3a);
    }
    (host_port, 80)
}

/// The server's stored position from its reply: a 200 carries one (or
/// none when the body has no readable percentage), 404 and 502 mean none is
/// stored yet, anything else is a protocol error.
pub open spec fn server_position_spec(status: u16, body_permille: Option<u16>) -> Result<
    Option<u16>,
    SyncError,
> {
    if status == 200 {
        Ok(body_permille)
    } else if status == 404 || status == 502 {
        Ok(None)
    } else {
        Err(SyncError::Protocol)
    }
}

pub fn server_position(status: u16, body_permille: Option<u16>) -> (r: Result<
    Option<u16>,
    SyncError,
>)
    ensures
        r == server_position_spec(status, body_permille),
{
    match status {
        200 => Ok(body_permille),
        404 | 502 => Ok(None),
        _ => Err(SyncError::Protocol),
    }
}

/// Whichever side read furthest wins: pull when the server is ahead, push
/// when the reader is ahead or the server has nothing; equal positions
/// exchange nothing. The result is (push, pull).
pub open spec fn push_pull_spec(server: Option<u16>, local: u16) -> (bool, bool) {
    match server {
        Some(s) => if s > local {
            (false, true)
        } else if s < local {
            (true, false)
        } else {
            (false, false)
        },
        None => (true, false),
    }
}

pub fn push_pull(server: Option<u16>, local: u16) -> (r: (bool, bool))
    ensures
        r == push_pull_spec(server, local),
{
    match server {
        Some(s) if s > local => (false, true),
        Some(s) if s < local => (true, false),
        Some(_) => (false, false),
        None => (true, false),
    }
}

/// The exchange never both pushes and pulls, and the side that moves is
/// always the one behind.
pub proof fn furthest_position_wins(server: Option<u16>, local: u16)
    ensures
        !(push_pull_spec(server, local).0 && push_pull_spec(server, local).1),
        push_pull_spec(server, local).1 ==> (server matches Some(s) && s > local),
        push_pull_spec(server, local).0 ==> (server matches Some(s) ==> s < local),
        server == Some(local) ==> push_pull_spec(server, local) == (false, false),
{
}

/// A position push is accepted with 200 or 202.
pub fn push_accepted(status: u16) -> (ok: bool)
    ensures
        ok == (status == 200 || status == 202),
{
    status == 200 || status == 202
}

/// The saved reading state of a book.
#[derive(Clone, Copy, Debug, PartialEq, Eq, Structural)]
pub struct PersistedAppState {
    pub book_id: u32,
    pub chapter: u16,
    pub screen: u32,
}

/// What the sync session knows of the open book.
pub struct SyncBookInfo {
    pub document_md5: [u8; 16],
    pub percent_permille: u16,
    pub doc_fragment_1based: u16,
    pub page_count: u32,
    pub chapter_count: u8,
    pub chapter_pages: Vec<u16>,
    pub persisted: PersistedAppState,
}

/// The screen (0-based) before the rounding-up of a pulled position
/// comes back to `u32`: `max(ceil(permille * pages / 1000), 1)`.
pub open spec fn pulled_position(page_count: u32, permille: u16) -> u64 {
    let pages = if page_count >= 1 {
        page_count
    } else {
        1
    };
    let position = ((permille as int * pages as int + 999) / 1000) as u64;
    if position >= 1 {
        position
    } else {
        1
    }
}

/// The screen a pulled position lands on: the permille of the book's pages,
/// rounded up, counted from 0 and kept on the last page at most. The count
/// is taken in 32 bits with wrapping subtraction, so a position that wraps
/// to 0 lands on the last page.
pub open spec fn pulled_screen(page_count: u32, permille: u16) -> u32 {
    let pages = if page_count >= 1 {
        page_count
    } else {
        1
    };
    let screen = (#[verifier::truncate] (pulled_position(page_count, permille) as u32) - 1) as u32;
    if screen <= pages - 1 {
        screen
    } else {
        (pages - 1) as u32
    }
}

/// The start page of chapter `i`, 0 past the shipped list.
pub open spec fn chapter_start(pages: Seq<u16>, i: int) -> u16 {
    if 0 <= i < pages.len() {
        pages[i]
    } else {
        0
    }
}

/// How many of the first `count` chapters, from the first on, start on or
/// before `screen` without a break.
pub open spec fn chapters_started(pages: Seq<u16>, count: int, screen: u32) -> int
    decreases count,
{
    if count <= 0 {
        0
    } else {
        let before = chapters_started(pages, count - 1, screen);
        if before == count - 1 && chapter_start(pages, count - 1) <= screen {
            count
        } else {
            before
        }
    }
}

/// Maps a pulled server position back onto a saved-state record: page from
/// the permille, chapter from the chapter start pages (the last of the
/// leading chapters that start on or before that page).
pub open spec fn pulled_record_spec(book: &SyncBookInfo, permille: u16) -> PersistedAppState {
    let screen = pulled_screen(book.page_count, permille);
    let started = chapters_started(book.chapter_pages@, book.chapter_count as int, screen);
    PersistedAppState {
        chapter: if started >= 1 {
            (started - 1) as u16
        } else {
            0
        },
        screen,
        ..book.persisted
    }
}

proof fn lemma_chapters_started(pages: Seq<u16>, count: int, screen: u32)
    ensures
        0 <= chapters_started(pages, count, screen) <= if count > 0 {
            count
        } else {
            0
        },
        chapters_started(pages, count, screen) < count ==> chapters_started(
            pages,
            count + 1,
            screen,
        ) == chapters_started(pages, count, screen),
    decreases count,
{
    if count > 0 {
        lemma_chapters_started(pages, count - 1, screen);
    }
}

proof fn lemma_started_stays(pages: Seq<u16>, from: int, to: int, screen: u32)
    requires
        0 < from <= to,
        chapters_started(pages, from, screen) < from,
    ensures
        chapters_started(pages, to, screen) == chapters_started(pages, from, screen),
    decreases to - from,
{
    if from < to {
        lemma_chapters_started(pages, from, screen);
        lemma_started_stays(pages, from + 1, to, screen);
    }
}

pub fn pulled_record(book: &SyncBookInfo, server_permille: u16) -> (r: PersistedAppState)
    ensures
        r == pulled_record_spec(book, server_permille),
{
    let page_count = if book.page_count >= 1 {
        book.page_count
    } else {
        1
    };
    assert(server_permille as u64 * page_count as u64 <= 0xffff * 0xffff_ffffu64) by (nonlinear_arith)
        requires
            server_permille <= 0xffff,
            page_count <= 0xffff_ffffu32,
    ;
    let product = server_permille as u64 * page_count as u64;
    let position = (product + 999) / 1000;
    let at_least_one = if position >= 1 {
        position
    } else {
        1
    };
    let base = #[verifier::truncate] (at_least_one as u32);
    let back = base.wrapping_sub(1);
    assert(back == (base - 1) as u32) by (bit_vector)
        requires
            back == (if base >= 1 { base - 1 } else { base - 1 + 0x1_0000_0000 }),
    ;
    let screen = if back <= page_count - 1 {
        back
    } else {
        page_count - 1
    };
    let mut chapter: u16 = 0;
    let mut index: usize = 0;
    let count = book.chapter_count as usize;
    let ghost pages = book.chapter_pages@;
    while index < count
        invariant_except_break
            index <= count,
            chapters_started(pages, index as int, screen) == index,
        invariant
            count == book.chapter_count,
            pages == book.chapter_pages@,
            chapter == if chapters_started(pages, index as int, screen) >= 1 {
                (chapters_started(pages, index as int, screen) - 1) as u16
            } else {
                0u16
            },
        ensures
            chapter == if chapters_started(pages, count as int, screen) >= 1 {
                (chapters_started(pages, count as int, screen) - 1) as u16
            } else {
                0u16
            },
        decreases count - index,
    {
        let start = if index < book.chapter_pages.len() {
            book.chapter_pages[index]
        } else {
            0
        };
        if start as u32 <= screen {
            chapter = index as u16;
            index += 1;
        } else {
            proof {
                assert(chapters_started(pages, index + 1, screen) == index);
                lemma_started_stays(pages, index + 1, count as int, screen);
            }
            break;
        }
    }
    PersistedAppState { chapter, screen, ..book.persisted }
}

/// The head of an HTTP response that closes the connection after an HTML
/// body of `body_len` bytes.
pub open spec fn http_response_head_spec(status: Seq<u8>, body_len: nat) -> Seq<u8> {
    "HTTP/1.1 ".spec_bytes() + status + "\r\ncontent-type: text/html\r\ncontent-length: ".spec_bytes()
        + decimal_digits(body_len) + "\r\nconnection: close\r\n\r\n".spec_bytes()
}

/// Builds the response head the upload page and the portal send before a
/// body; the length field holds at most eight digits.
pub fn http_response_head(status: &str, body_len: usize) -> (head: Vec<u8>)
    requires
        body_len < 100_000_000,
    ensures
        head@ == http_response_head_spec(status.spec_bytes(), body_len as nat),
{
    let mut length = [0u8; 8];
    let mut at: usize = 8;
    let mut value = body_len;
    proof {
        broadcast use vstd::array::group_array_axioms;
        lemma_decimal_digits(body_len as nat);
        assert(crate::decimal::pow10(8) == 100_000_000) by {
            reveal_with_fuel(crate::decimal::pow10, 9);
        }
    }
    loop
        invariant_except_break
            at < 8 ==> value > 0,
        invariant
            length@.len() == 8,
            at <= 8,
            value <= body_len,
            body_len < 100_000_000,
            value < crate::decimal::pow10(at as nat),
            at == 8 ==> value == body_len,
            at < 8 ==> value == 0 ==> decimal_digits(body_len as nat) == length@.subrange(
                at as int,
                8,
            ),
            at < 8 ==> value > 0 ==> decimal_digits(body_len as nat) == decimal_digits(
                value as nat,
            ) + length@.subrange(at as int, 8),
        ensures
            at < 8,
            decimal_digits(body_len as nat) == length@.subrange(at as int, 8),
        decreases at,
    {
        proof {
            assert(crate::decimal::pow10(8) == 100_000_000) by {
                reveal_with_fuel(crate::decimal::pow10, 9);
            }
            if at == 0 {
                assert(crate::decimal::pow10(0) == 1);
            }
            lemma_decimal_digits(value as nat);
        }
        let ghost prev = length@;
        at -= 1;
        length[at] = 0x30 + (value % 10) as u8;
        proof {
            assert(length@.subrange(at + 1, 8) =~= prev.subrange(at + 1, 8));
            assert(length@.subrange(at as int, 8) =~= seq![(0x30 + value % 10) as u8]
                + length@.subrange(at + 1, 8));
            if value >= 10 {
                lemma_decimal_digits((value / 10) as nat);
                if at + 1 == 8 {
                    assert(decimal_digits(body_len as nat) =~= decimal_digits((value / 10) as nat)
                        + length@.subrange(at as int, 8));
                } else {
                    assert(decimal_digits(body_len as nat) =~= decimal_digits((value / 10) as nat)
                        + length@.subrange(at as int, 8));
                }
            } else {
                assert(decimal_digits(body_len as nat) =~= length@.subrange(at as int, 8));
            }
            assert(crate::decimal::pow10((at + 1) as nat) == 10 * crate::decimal::pow10(at as nat));
        }
        value = value / 10;
        if value == 0 {
            break;
        }
    }
    let mut head: Vec<u8> = Vec::new();
    head.extend_from_slice("HTTP/1.1 ".as_bytes());
    head.extend_from_slice(status.as_bytes());
    head.extend_from_slice("\r\ncontent-type: text/html\r\ncontent-length: ".as_bytes());
    let digits = length.as_slice();
    head.extend_from_slice(&digits[at..8]);
    head.extend_from_slice("\r\nconnection: close\r\n\r\n".as_bytes());
    head
}

/// The ASCII bytes of `POST`.
pub open spec fn post_bytes() -> Seq<u8> {
    seq![0x50, 0x4f, 0x53, 0x54]
}

/// The ASCII bytes of `/upload`.
pub open spec fn upload_path_bytes() -> Seq<u8> {
    seq![0x2f, 0x75, 0x70, 0x6c, 0x6f, 0x61, 0x64]
}

/// A request whose method (the first `method_len` bytes) is `POST` and whose
/// path (the `path_len` bytes after the space) starts with `/upload`.
pub open spec fn is_upload_post_spec(request: Seq<u8>, method_len: int, path_len: int) -> bool {
    let path_at = method_len + 1;
    &&& method_len <= request.len()
    &&& request.take(method_len) == post_bytes()
    &&& path_at + path_len <= request.len()
    &&& upload_path_bytes().len() <= path_len
    &&& request.subrange(path_at, path_at + upload_path_bytes().len()) == upload_path_bytes()
}

fn bytes_eq_at(request: &[u8], at: usize, expected: &[u8]) -> (r: bool)
    requires
        at + expected@.len() <= request@.len(),
    ensures
        r == (request@.subrange(at as int, at + expected@.len()) == expected@),
{
    let n = request.len();
    let mut k: usize = 0;
    while k < expected.len()
        invariant
            n == request@.len(),
            k <= expected@.len(),
            at + expected@.len() <= request@.len(),
            forall|j: int| 0 <= j < k ==> request@[at + j] == expected@[j],
        decreases expected@.len() - k,
    {
        if request[at + k] != expected[k] {
            assert(request@.subrange(at as int, at + expected@.len())[k as int] != expected@[k as int]);
            return false;
        }
        k += 1;
    }
    assert(request@.subrange(at as int, at + expected@.len()) =~= expected@);
    true
}

/// Whether a request head is a book upload: method `POST` and a path that
/// starts with `/upload`.
pub fn is_upload_post(request: &[u8], method_len: usize, path_len: usize) -> (r: bool)
    requires
        method_len + 1 + path_len <= usize::MAX,
    ensures
        r == is_upload_post_spec(request@, method_len as int, path_len as int),
{
    let post: [u8; 4] = [0x50, 0x4f, 0x53, 0x54];
    let upload: [u8; 7] = [0x2f, 0x75, 0x70, 0x6c, 0x6f, 0x61, 0x64];
    proof {
        broadcast use vstd::array::group_array_axioms;
        assert(post@ =~= post_bytes());
        assert(upload@ =~= upload_path_bytes());
    }
    let method_ok = method_len <= request.len() && method_len == 4 && bytes_eq_at(
        request,
        0,
        post.as_slice(),
    );
    assert(method_ok == (method_len <= request@.len() && request@.take(method_len as int)
        == post_bytes())) by {
        if method_len <= request@.len() && method_len != 4 {
            assert(request@.take(method_len as int).len() != post_bytes().len());
        }
        if method_len == 4 && method_len <= request@.len() {
            assert(request@.take(4) == request@.subrange(0, 4));
        }
    }
    let path_at = method_len + 1;
    let path_ok = path_at + path_len <= request.len() && 7 <= path_len && bytes_eq_at(
        request,
        path_at,
        upload.as_slice(),
    );
    method_ok && path_ok
}

/// Where the query of a request path begins: just after its first `?`;
/// `None` when the path has no query.
pub fn query_start(path: &[u8]) -> (r: Option<usize>)
    ensures
        match first_index_of(path@, 0x3f) {
            Some(i) => r == Some((i + 1) as usize),
            None => r is None,
        },
{
    proof {
        crate::textutil::lemma_first_index_of(path@, 0x3f);
    }
    let mut i: usize = 0;
    while i < path.len()
        invariant
            i <= path@.len(),
            forall|k: int| 0 <= k < i ==> path@[k] != 0x3f,
            match first_index_of(path@, 0x3f) {
                Some(j) => 0 <= j < path@.len() && path@[j] == 0x3f && forall|k: int|
                    0 <= k < j ==> path@[k] != 0x3f,
                None => forall|k: int| 0 <= k < path@.len() ==> path@[k] != 0x3f,
            },
        decreases path@.len() - i,
    {
        if path[i] == 0x3f {
            return Some(i + 1);
        }
        i += 1;
    }
    None
}

/// Whether a portal request submits the credential form (`POST /save`).
pub fn is_save_request(method: &str, path: &str) -> (r: bool)
    ensures
        r == (method.spec_bytes() == post_bytes() && path.spec_bytes() == seq![
            0x2fu8,
            0x73,
            0x61,
            0x76,
            0x65,
        ]),
{
    let m = method.as_bytes();
    let p = path.as_bytes();
    let post: [u8; 4] = [0x50, 0x4f, 0x53, 0x54];
    let save: [u8; 5] = [0x2f, 0x73, 0x61, 0x76, 0x65];
    proof {
        broadcast use vstd::array::group_array_axioms;
        assert(post@ =~= post_bytes());
        assert(save@ =~= seq![0x2fu8, 0x73, 0x61, 0x76, 0x65]);
    }
    let method_ok = m.len() == 4 && bytes_eq_at(m, 0, post.as_slice());
    let path_ok = p.len() == 5 && bytes_eq_at(p, 0, save.as_slice());
    proof {
        if m@.len() == 4 {
            assert(m@.subrange(0, 4) =~= m@);
        }
        if p@.len() == 5 {
            assert(p@.subrange(0, 5) =~= p@);
        }
    }
    method_ok && path_ok
}

/// Where the sync session stands.
#[derive(Clone, Copy, Debug, PartialEq, Eq, Structural)]
pub enum SessionState {
    /// Waiting for the first Start; nothing has been loaned yet.
    Parked,
    /// Joining the network and exchanging the position.
    Attempting,
    /// An attempt failed; waiting for Start (retry) or Exit.
    AwaitingRetry,
    /// The exchange finished; the upload server runs until Exit.
    Serving,
}

/// What happens to the session.
#[derive(Clone, Copy, Debug, PartialEq, Eq, Structural)]
pub enum SessionInput {
    Command(SyncCommand),
    /// An attempt ended, completed (`true`) or failed (`false`).
    AttemptEnded(bool),
}

/// What the session task does next.
#[derive(Clone, Copy, Debug, PartialEq, Eq, Structural)]
pub enum SessionAction {
    Nothing,
    /// Borrow the reader's memory, bring the radio up, and attempt.
    BeginSession,
    /// Attempt again with the radio already up.
    Attempt,
    /// Announce the address and serve uploads.
    Serve,
    /// Software reset: the only way back to reading once the session began.
    Reset,
}

/// The session's course: the first Start begins it (an Exit before that is
/// a no-op); a completed attempt moves on to serving, a failed one waits
/// for Start (retry) or Exit (reset); while serving only Exit matters.
pub open spec fn session_step_spec(state: SessionState, input: SessionInput) -> (
    SessionState,
    SessionAction,
) {
    match (state, input) {
        (SessionState::Parked, SessionInput::Command(SyncCommand::Start)) => (
            SessionState::Attempting,
            SessionAction::BeginSession,
        ),
        (SessionState::Attempting, SessionInput::AttemptEnded(true)) => (
            SessionState::Serving,
            SessionAction::Serve,
        ),
        (SessionState::Attempting, SessionInput::AttemptEnded(false)) => (
            SessionState::AwaitingRetry,
            SessionAction::Nothing,
        ),
        (SessionState::AwaitingRetry, SessionInput::Command(SyncCommand::Start)) => (
            SessionState::Attempting,
            SessionAction::Attempt,
        ),
        (SessionState::Parked, SessionInput::Command(SyncCommand::Exit)) => (
            SessionState::Parked,
            SessionAction::Nothing,
        ),
        (_, SessionInput::Command(SyncCommand::Exit)) => (state, SessionAction::Reset),
        _ => (state, SessionAction::Nothing),
    }
}

pub fn session_step(state: SessionState, input: SessionInput) -> (r: (SessionState, SessionAction))
    ensures
        r == session_step_spec(state, input),
{
    match (state, input) {
        (SessionState::Parked, SessionInput::Command(SyncCommand::Start)) => (
            SessionState::Attempting,
            SessionAction::BeginSession,
        ),
        (SessionState::Attempting, SessionInput::AttemptEnded(true)) => (
            SessionState::Serving,
            SessionAction::Serve,
        ),
        (SessionState::Attempting, SessionInput::AttemptEnded(false)) => (
            SessionState::AwaitingRetry,
            SessionAction::Nothing,
        ),
        (SessionState::AwaitingRetry, SessionInput::Command(SyncCommand::Start)) => (
            SessionState::Attempting,
            SessionAction::Attempt,
        ),
        (SessionState::Parked, SessionInput::Command(SyncCommand::Exit)) => (
            SessionState::Parked,
            SessionAction::Nothing,
        ),
        (_, SessionInput::Command(SyncCommand::Exit)) => (state, SessionAction::Reset),
        _ => (state, SessionAction::Nothing),
    }
}

/// Exit before the first Start does nothing; once the session has begun,
/// Exit always resets, and nothing but Exit resets.
pub proof fn exit_resets_only_after_start(state: SessionState, input: SessionInput)
    ensures
        state == SessionState::Parked ==> session_step_spec(state, input).1
            != SessionAction::Reset,
        state != SessionState::Parked && input == SessionInput::Command(SyncCommand::Exit)
            ==> session_step_spec(state, input).1 == SessionAction::Reset,
        session_step_spec(state, input).1 == SessionAction::Reset ==> input
            == SessionInput::Command(SyncCommand::Exit),
{
}

} // verus!
