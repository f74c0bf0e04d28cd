//! The fixed-capacity strings of the `heapless` crate, as the library uses them.
//!
//! Each capacity the library needs has a name for what a string of that
//! capacity holds, as a sequence of `char`s; the wrappers below state what
//! `new`, `push`, `push_str` and `as_str` do to it. The capacity
//! counts UTF-8 bytes, as in `heapless`, where the string is a `Vec<u8, N>`.
use vstd::prelude::*;
use vstd::utf8::encode_utf8;

verus! {

/// The fixed-capacity string of the `heapless` crate.
#[verifier::external_type_specification]
#[verifier::external_body]
pub struct ExHeaplessString<const N: usize>(heapless::String<N>);

/// The number of bytes that `chars` take in UTF-8.
pub open spec fn utf8_len(chars: Seq<char>) -> nat {
    encode_utf8(chars).len()
}

/// What a `heapless::String<12>` holds.
pub uninterp spec fn hstr12(s: heapless::String<12>) -> Seq<char>;

/// What a `heapless::String<16>` holds.
pub uninterp spec fn hstr16(s: heapless::String<16>) -> Seq<char>;

/// What a `heapless::String<32>` holds.
pub uninterp spec fn hstr32(s: heapless::String<32>) -> Seq<char>;

/// What a `heapless::String<64>` holds.
pub uninterp spec fn hstr64(s: heapless::String<64>) -> Seq<char>;

/// `heapless::String::<12>::new`: the string starts empty.
#[verifier::external_body]
pub(crate) fn hstr12_new() -> (r: heapless::String<12>)
    ensures
        hstr12(r) == Seq::<char>::empty(),
{
    heapless::String::new()
}

/// `heapless::String::<12>::push`: the char is appended when its UTF-8 bytes
/// still fit in the twelve bytes; otherwise nothing changes and `Err` comes back.
#[verifier::external_body]
pub(crate) fn hstr12_push(s: &mut heapless::String<12>, c: char) -> (r: Result<(), ()>)
    ensures
        ({
            let fits = utf8_len(hstr12(*old(s))) + utf8_len(seq![c]) <= 12;
            &&& (r is Ok) == fits
            &&& hstr12(*final(s)) == if fits {
                hstr12(*old(s)).push(c)
            } else {
                hstr12(*old(s))
            }
        }),
{
    s.push(c)
}

/// `heapless::String::<12>::push_str`: the text is appended when its bytes
/// still fit; otherwise nothing changes and `Err` comes back.
#[verifier::external_body]
pub(crate) fn hstr12_push_str(s: &mut heapless::String<12>, t: &str) -> (r: Result<(), ()>)
    ensures
        ({
            let fits = utf8_len(hstr12(*old(s))) + utf8_len(t@) <= 12;
            &&& (r is Ok) == fits
            &&& hstr12(*final(s)) == if fits {
                hstr12(*old(s)) + t@
            } else {
                hstr12(*old(s))
            }
        }),
{
    s.push_str(t)
}

/// `heapless::String::<12>::as_str`: the characters held.
#[verifier::external_body]
pub(crate) fn hstr12_as_str(s: &heapless::String<12>) -> (r: &str)
    ensures
        r@ == hstr12(*s),
{
    s.as_str()
}

/// `heapless::String::<16>::new`: the string starts empty.
#[verifier::external_body]
pub(crate) fn hstr16_new() -> (r: heapless::String<16>)
    ensures
        hstr16(r) == Seq::<char>::empty(),
{
    heapless::String::new()
}

/// `heapless::String::<16>::push_str`: the text is appended when its bytes
/// still fit; otherwise nothing changes and `Err` comes back.
#[verifier::external_body]
pub(crate) fn hstr16_push_str(s: &mut heapless::String<16>, t: &str) -> (r: Result<(), ()>)
    ensures
        ({
            let fits = utf8_len(hstr16(*old(s))) + utf8_len(t@) <= 16;
            &&& (r is Ok) == fits
            &&& hstr16(*final(s)) == if fits {
                hstr16(*old(s)) + t@
            } else {
                hstr16(*old(s))
            }
        }),
{
    s.push_str(t)
}

/// `heapless::String::<32>::new`: the string starts empty.
#[verifier::external_body]
pub(crate) fn hstr32_new() -> (r: heapless::String<32>)
    ensures
        hstr32(r) == Seq::<char>::empty(),
{
    heapless::String::new()
}

/// `heapless::String::<32>::as_str`: the characters held.
#[verifier::external_body]
pub(crate) fn hstr32_as_str(s: &heapless::String<32>) -> (r: &str)
    ensures
        r@ == hstr32(*s),
{
    s.as_str()
}

/// `heapless::String::<64>::new`: the string starts empty.
#[verifier::external_body]
pub(crate) fn hstr64_new() -> (r: heapless::String<64>)
    ensures
        hstr64(r) == Seq::<char>::empty(),
{
    heapless::String::new()
}

/// `heapless::String::<64>::push_str`: the text is appended when its bytes
/// still fit; otherwise nothing changes and `Err` comes back.
#[verifier::external_body]
pub(crate) fn hstr64_push_str(s: &mut heapless::String<64>, t: &str) -> (r: Result<(), ()>)
    ensures
        ({
            let fits = utf8_len(hstr64(*old(s))) + utf8_len(t@) <= 64;
            &&& (r is Ok) == fits
            &&& hstr64(*final(s)) == if fits {
                hstr64(*old(s)) + t@
            } else {
                hstr64(*old(s))
            }
        }),
{
    s.push_str(t)
}

/// `heapless::String::<64>::as_str`: the characters held.
#[verifier::external_body]
pub(crate) fn hstr64_as_str(s: &heapless::String<64>) -> (r: &str)
    ensures
        r@ == hstr64(*s),
{
    s.as_str()
}

} // verus!
