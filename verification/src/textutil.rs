//! Small text helpers: fragment stripping, trimming, UTF-8 checking, and the
//! source hash that identifies a book file.
use vstd::prelude::*;
use vstd::utf8::*;
use vstd::string::*;

verus! {

/// A character of the Unicode `White_Space` property, by which `str::trim`
/// and `char::is_whitespace` define whitespace: tab to carriage return,
/// space, NEL, no-break space, ogham space, the en quad to hair space
/// range, line and paragraph separators, narrow no-break space, medium
/// mathematical space and ideographic space.
pub open spec fn is_white_space(c: char) -> bool {
    let u = c as u32;
    ||| 0x09 <= u <= 0x0d
    ||| u == 0x20
    ||| u == 0x85
    ||| u == 0xa0
    ||| u == 0x1680
    ||| 0x2000 <= u <= 0x200a
    ||| u == 0x2028
    ||| u == 0x2029
    ||| u == 0x202f
    ||| u == 0x205f
    ||| u == 0x3000
}

/// `s` without its leading whitespace.
pub open spec fn trim_start(s: Seq<char>) -> Seq<char>
    decreases s.len(),
{
    if s.len() > 0 && is_white_space(s[0]) {
        trim_start(s.drop_first())
    } else {
        s
    }
}

/// `s` without its trailing whitespace.
pub open spec fn trim_end(s: Seq<char>) -> Seq<char>
    decreases s.len(),
{
    if s.len() > 0 && is_white_space(s.last()) {
        trim_end(s.drop_last())
    } else {
        s
    }
}

/// `s` without its leading and trailing whitespace.
pub open spec fn trimmed(s: Seq<char>) -> Seq<char> {
    trim_end(trim_start(s))
}

/// `str::trim`: the string without its leading and trailing whitespace,
/// whitespace being the Unicode `White_Space` property.
#[verifier::external_body]
pub(crate) fn str_trim(s: &str) -> (r: &str)
    ensures
        r@ == trimmed(s@),
{
    s.trim()
}

/// `core::str::from_utf8`, with its error turned into `None`: a `str` whose
/// bytes are exactly the given ones when they are valid UTF-8, else `None`.
#[verifier::external_body]
pub(crate) fn str_from_utf8(bytes: &[u8]) -> (r: Option<&str>)
    ensures
        r is Some <==> valid_utf8(bytes@),
        r matches Some(s) ==> s.spec_bytes() == bytes@,
{
    core::str::from_utf8(bytes).ok()
}

/// The index of the first `b` in `bytes`, if there is one.
pub open spec fn first_index_of(bytes: Seq<u8>, b: u8) -> Option<int>
    decreases bytes.len(),
{
    if bytes.len() == 0 {
        None
    } else if bytes[0] == b {
        Some(0)
    } else {
        match first_index_of(bytes.drop_first(), b) {
            Some(i) => Some(i + 1),
            None => None,
        }
    }
}

/// The bytes before the first `#` (all of them when there is none).
pub open spec fn strip_fragment_bytes(bytes: Seq<u8>) -> Seq<u8> {
    match first_index_of(bytes, 0x23) {
        Some(i) => bytes.take(i),
        None => bytes,
    }
}

/// The characters of a string cut at its first `#`.
pub open spec fn strip_fragment_chars(s: Seq<char>) -> Seq<char> {
    decode_utf8(strip_fragment_bytes(encode_utf8(s)))
}

/// `first_index_of` finds the first occurrence, or none when there is none.
pub proof fn lemma_first_index_of(bytes: Seq<u8>, b: u8)
    ensures
        match first_index_of(bytes, b) {
            Some(i) => 0 <= i < bytes.len() && bytes[i] == b && forall|k: int|
                0 <= k < i ==> bytes[k] != b,
            None => forall|k: int| 0 <= k < bytes.len() ==> bytes[k] != b,
        },
    decreases bytes.len(),
{
    if bytes.len() > 0 {
        lemma_first_index_of(bytes.drop_first(), b);
        if bytes[0] != b {
            match first_index_of(bytes.drop_first(), b) {
                Some(i) => {
                    assert forall|k: int| 0 <= k < i + 1 implies bytes[k] != b by {
                        if k > 0 {
                            assert(bytes[k] == bytes.drop_first()[k - 1]);
                        }
                    }
                },
                None => {
                    assert forall|k: int| 0 <= k < bytes.len() implies bytes[k] != b by {
                        if k > 0 {
                            assert(bytes[k] == bytes.drop_first()[k - 1]);
                        }
                    }
                },
            }
        }
    }
}

/// The part of an href before its fragment (`#...`).
pub fn strip_fragment(value: &str) -> (r: &str)
    ensures
        r.spec_bytes() == strip_fragment_bytes(value.spec_bytes()),
        r@ == strip_fragment_chars(value@),
{
    let bytes = value.as_bytes();
    proof {
        lemma_first_index_of(bytes@, 0x23);
        encode_utf8_valid_utf8(value@);
        encode_utf8_decode_utf8(value@);
    }
    let mut i: usize = 0;
    while i < bytes.len()
        invariant
            i <= bytes@.len(),
            bytes@ == value.spec_bytes(),
            forall|k: int| 0 <= k < i ==> bytes@[k] != 0x23,
        decreases bytes@.len() - i,
    {
        if bytes[i] == 0x23 {
            proof {
                lemma_first_index_of(bytes@, 0x23);
                encode_utf8_valid_utf8(value@);
                match first_index_of(bytes@, 0x23) {
                    Some(j) => {
                        assert(j == i);
                    },
                    None => {},
                }
                assert(!is_continuation_byte(bytes@[i as int])) by {
                    utf8_byte_ranges_bitwise(bytes@[i as int]);
                }
                is_char_boundary_iff_not_is_continuation_byte(bytes@, i as int);
            }
            let (head, _tail) = value.split_at(i);
            proof {
                assert(head.spec_bytes() == bytes@.take(i as int));
                encode_utf8_decode_utf8(head@);
            }
            return head;
        }
        i += 1;
    }
    proof {
        lemma_first_index_of(bytes@, 0x23);
    }
    value
}

/// FNV-1a, one byte at a time.
pub open spec fn fnv1a_step(hash: u32, byte: u8) -> u32 {
    (hash ^ (byte as u32)).wrapping_mul(0x0100_0193)
}

/// FNV-1a (32 bit) of a byte sequence.
pub open spec fn fnv1a(bytes: Seq<u8>) -> u32
    decreases bytes.len(),
{
    if bytes.len() == 0 {
        0x811c_9dc5
    } else {
        fnv1a_step(fnv1a(bytes.drop_last()), bytes.last())
    }
}

/// The little-endian bytes of a `u32`.
pub open spec fn le_bytes(x: u32) -> Seq<u8> {
    seq![
        (x % 0x100) as u8,
        ((x / 0x100) % 0x100) as u8,
        ((x / 0x1_0000) % 0x100) as u8,
        (x / 0x100_0000) as u8,
    ]
}

/// A book file's identity: FNV-1a over its path bytes, then over the four
/// little-endian bytes of its size.
pub open spec fn source_hash_spec(path: Seq<u8>, byte_size: u32) -> u32 {
    fnv1a(path + le_bytes(byte_size))
}

fn to_le_bytes(x: u32) -> (b: [u8; 4])
    ensures
        b@ == le_bytes(x),
{
    let b = [
        (x % 0x100) as u8,
        ((x / 0x100) % 0x100) as u8,
        ((x / 0x1_0000) % 0x100) as u8,
        (x / 0x100_0000) as u8,
    ];
    assert(b@ =~= le_bytes(x));
    b
}

pub fn source_hash(path: &str, byte_size: u32) -> (hash: u32)
    ensures
        hash == source_hash_spec(path.spec_bytes(), byte_size),
{
    let bytes = path.as_bytes();
    let size = to_le_bytes(byte_size);
    let ghost all = bytes@ + size@;
    let mut hash: u32 = 0x811c_9dc5;
    let mut i: usize = 0;
    assert(all.take(0) =~= Seq::<u8>::empty());
    while i < bytes.len()
        invariant
            i <= bytes@.len(),
            all == bytes@ + size@,
            hash == fnv1a(all.take(i as int)),
        decreases bytes@.len() - i,
    {
        assert(all.take(i + 1).drop_last() =~= all.take(i as int));
        hash = (hash ^ bytes[i] as u32).wrapping_mul(0x0100_0193);
        i += 1;
    }
    let mut j: usize = 0;
    while j < 4
        invariant
            j <= 4,
            i == bytes@.len(),
            size@.len() == 4,
            all == bytes@ + size@,
            hash == fnv1a(all.take(i + j)),
        decreases 4 - j,
    {
        assert(all.take(i + j + 1).drop_last() =~= all.take(i + j));
        hash = (hash ^ size[j] as u32).wrapping_mul(0x0100_0193);
        j += 1;
    }
    assert(all.take(i + 4) =~= all);
    hash
}

} // verus!
