//! Decimal numbers as ASCII text: formatting into small buffers and parsing.
use vstd::prelude::*;
use vstd::utf8::*;
use vstd::string::*;

verus! {

/// The decimal digits of `n`, most significant first, as ASCII bytes
/// (`"0"` for zero).
pub open spec fn decimal_digits(n: nat) -> Seq<u8>
    decreases n,
{
    if n < 10 {
        seq![(0x30 + n) as u8]
    } else {
        decimal_digits(n / 10).push((0x30 + n % 10) as u8)
    }
}

/// The value of ASCII decimal digits.
pub open spec fn decimal_value(digits: Seq<u8>) -> nat
    decreases digits.len(),
{
    if digits.len() == 0 {
        0
    } else {
        decimal_value(digits.drop_last()) * 10 + (digits.last() - 0x30) as nat
    }
}

pub open spec fn is_ascii_digit(b: u8) -> bool {
    0x30 <= b <= 0x39
}

pub open spec fn all_digits(s: Seq<u8>) -> bool {
    forall|i: int| 0 <= i < s.len() ==> is_ascii_digit(#[trigger] s[i])
}

pub proof fn lemma_decimal_digits(n: nat)
    ensures
        1 <= decimal_digits(n).len(),
        all_digits(decimal_digits(n)),
        decimal_value(decimal_digits(n)) == n,
        n < 10 ==> decimal_digits(n).len() == 1,
        n >= 10 ==> decimal_digits(n).len() == decimal_digits(n / 10).len() + 1,
        decimal_digits(n)[0] != 0x30 || n == 0,
    decreases n,
{
    if n >= 10 {
        lemma_decimal_digits(n / 10);
        let d = decimal_digits(n / 10);
        assert(decimal_digits(n).drop_last() =~= d);
        assert(decimal_digits(n)[0] == d[0]);
        assert(decimal_digits(n).last() == (0x30 + n % 10) as u8);
        assert((n / 10) * 10 + n % 10 == n) by (nonlinear_arith);
        let dn = decimal_digits(n);
        assert(decimal_value(dn) == decimal_value(dn.drop_last()) * 10 + (dn.last() - 0x30) as nat);
        assert(decimal_value(dn) == (n / 10) * 10 + n % 10);
    } else {
        let dn = decimal_digits(n);
        assert(dn.drop_last() =~= Seq::<u8>::empty());
        assert(decimal_value(dn.drop_last()) == 0);
        assert(dn.last() == (0x30 + n) as u8);
        assert(decimal_value(dn) == n);
    }
}

/// How many decimal digits `n` has.
pub proof fn lemma_digits_len_bound(n: nat, k: nat, p: nat)
    requires
        n < p,
        p == pow10(k),
        k >= 1,
    ensures
        decimal_digits(n).len() <= k,
    decreases k,
{
    lemma_decimal_digits(n);
    if n >= 10 {
        assert(k >= 2) by {
            if k == 1 {
                assert(pow10(1) == 10) by {
                    reveal_with_fuel(pow10, 2);
                }
            }
        }
        assert(pow10(k) == 10 * pow10((k - 1) as nat));
        lemma_digits_len_bound(n / 10, (k - 1) as nat, pow10((k - 1) as nat));
    }
}

/// `10` to the power `k`.
pub open spec fn pow10(k: nat) -> nat
    decreases k,
{
    if k == 0 {
        1
    } else {
        10 * pow10((k - 1) as nat)
    }
}

/// The `u32` decimal digits of `n`, written into the end of `buf`; returns
/// where they start. Ten bytes hold every `u32`.
pub fn write_u32_digits(n: u32, buf: &mut [u8; 10]) -> (start: usize)
    ensures
        start < 10,
        final(buf)@.subrange(start as int, 10) == decimal_digits(n as nat),
        final(buf)@.subrange(0, start as int) == old(buf)@.subrange(0, start as int),
{
    proof {
        broadcast use vstd::array::group_array_axioms;
        lemma_decimal_digits(n as nat);
        assert(pow10(10) == 10000000000) by {
            reveal_with_fuel(pow10, 11);
        }
        lemma_digits_len_bound(n as nat, 10, pow10(10));
    }
    let mut i: usize = 10;
    let mut v = n;
    if v == 0 {
        i -= 1;
        buf[i] = 0x30;
        assert(buf@.subrange(9, 10) =~= decimal_digits(0));
        assert(buf@.subrange(0, 9) =~= old(buf)@.subrange(0, 9));
        return i;
    }
    while v > 0
        invariant
            buf@.len() == 10,
            0 < i <= 10 || v == 0,
            i <= 10,
            v <= n,
            v > 0 ==> decimal_digits(v as nat).len() <= i,
            v > 0 ==> decimal_digits(n as nat) == decimal_digits(v as nat) + buf@.subrange(
                i as int,
                10,
            ),
            v == 0 ==> decimal_digits(n as nat) == buf@.subrange(i as int, 10),
            buf@.subrange(0, i as int) == old(buf)@.subrange(0, i as int),
            n > 0,
        decreases v,
    {
        proof {
            lemma_decimal_digits(v as nat);
        }
        let ghost before = buf@;
        i -= 1;
        buf[i] = 0x30 + (v % 10) as u8;
        proof {
            if v >= 10 {
                lemma_decimal_digits((v / 10) as nat);
                assert(decimal_digits(v as nat) == decimal_digits((v / 10) as nat).push(
                    (0x30 + v % 10) as u8,
                ));
                assert(decimal_digits(n as nat) =~= decimal_digits((v / 10) as nat)
                    + buf@.subrange(i as int, 10));
            } else {
                assert(decimal_digits(n as nat) =~= buf@.subrange(i as int, 10));
            }
            assert(buf@.subrange(0, i as int) =~= old(buf)@.subrange(0, i as int));
        }
        v = v / 10;
    }
    i
}

/// The decimal digits of `n`, written into the end of `buf`; returns where
/// they start. Twenty bytes hold every `usize`.
fn write_usize_digits(n: usize, buf: &mut [u8; 20]) -> (start: usize)
    ensures
        start < 20,
        final(buf)@.subrange(start as int, 20) == decimal_digits(n as nat),
{
    proof {
        broadcast use vstd::array::group_array_axioms;
        lemma_decimal_digits(n as nat);
        assert(pow10(20) == 100000000000000000000) by {
            reveal_with_fuel(pow10, 21);
        }
        lemma_digits_len_bound(n as nat, 20, pow10(20));
    }
    let mut i: usize = 20;
    let mut v = n;
    if v == 0 {
        i -= 1;
        buf[i] = 0x30;
        assert(buf@.subrange(19, 20) =~= decimal_digits(0));
        return i;
    }
    while v > 0
        invariant
            buf@.len() == 20,
            i <= 20,
            v <= n,
            n > 0,
            v > 0 ==> decimal_digits(v as nat).len() <= i,
            v > 0 ==> decimal_digits(n as nat) == decimal_digits(v as nat) + buf@.subrange(
                i as int,
                20,
            ),
            v == 0 ==> decimal_digits(n as nat) == buf@.subrange(i as int, 20) && i < 20,
        decreases v,
    {
        proof {
            lemma_decimal_digits(v as nat);
        }
        i -= 1;
        buf[i] = 0x30 + (v % 10) as u8;
        proof {
            if v >= 10 {
                lemma_decimal_digits((v / 10) as nat);
                assert(decimal_digits(n as nat) =~= decimal_digits((v / 10) as nat)
                    + buf@.subrange(i as int, 20));
            } else {
                assert(decimal_digits(n as nat) =~= buf@.subrange(i as int, 20));
            }
        }
        v = v / 10;
    }
    i
}

/// Formats `n` in decimal into the end of `buf` and returns the digits;
/// the bytes before them are left as they were.
pub fn fmt_u32(n: u32, buf: &mut [u8; 10]) -> (r: &str)
    ensures
        r.spec_bytes() == decimal_digits(n as nat),
        decimal_digits(n as nat).len() <= 10,
        final(buf)@.subrange(10 - decimal_digits(n as nat).len(), 10) == decimal_digits(n as nat),
        final(buf)@.subrange(0, 10 - decimal_digits(n as nat).len()) == old(buf)@.subrange(
            0,
            10 - decimal_digits(n as nat).len(),
        ),
{
    let start = write_u32_digits(n, buf);
    proof {
        assert(buf@.subrange(start as int, 10).len() == decimal_digits(n as nat).len());
    }
    let digits = buf.as_slice();
    let digits = &digits[start..10];
    proof {
        lemma_digits_are_ascii(n as nat);
    }
    match crate::textutil::str_from_utf8(digits) {
        Some(s) => s,
        None => {
            proof {
                reveal_strlit("?");
            }
            "?"
        },
    }
}

/// Digit bytes are ASCII, hence valid UTF-8.
pub proof fn lemma_digits_are_ascii(n: nat)
    ensures
        valid_utf8(decimal_digits(n)),
        decode_utf8(decimal_digits(n)).len() == decimal_digits(n).len(),
{
    lemma_decimal_digits(n);
    let d = decimal_digits(n);
    let chars = Seq::new(d.len(), |i: int| d[i] as char);
    assert(is_ascii_chars(chars));
    is_ascii_chars_encode_utf8(chars);
    assert(encode_utf8(chars) =~= d);
    encode_utf8_valid_utf8(chars);
    encode_utf8_decode_utf8(chars);
}

/// Formats a percentage, `n` in decimal followed by `%`, into the start of
/// `buf`; the bytes after it are left as they were.
pub fn fmt_percent(n: u8, buf: &mut [u8; 10]) -> (r: &str)
    ensures
        r.spec_bytes() == decimal_digits(n as nat).push(0x25),
        decimal_digits(n as nat).len() < 10,
        final(buf)@.subrange(0, (decimal_digits(n as nat).len() + 1) as int) == decimal_digits(
            n as nat,
        ).push(0x25),
        final(buf)@.subrange((decimal_digits(n as nat).len() + 1) as int, 10) == old(buf)@.subrange(
            (decimal_digits(n as nat).len() + 1) as int,
            10,
        ),
{
    let mut tmp = [0u8; 10];
    let number = fmt_u32(n as u32, &mut tmp).as_bytes();
    proof {
        broadcast use vstd::array::group_array_axioms;
        lemma_decimal_digits(n as nat);
        lemma_decimal_digits((n / 10) as nat);
        lemma_decimal_digits((n / 100) as nat);
    }
    if number.len() + 1 > 10 {
        proof {
            reveal_strlit("?");
        }
        return "?";
    }
    let mut k: usize = 0;
    while k < number.len()
        invariant
            k <= number@.len(),
            number@.len() + 1 <= 10,
            buf@.len() == 10,
            forall|j: int| 0 <= j < k ==> buf@[j] == number@[j],
            forall|j: int| k <= j < 10 ==> buf@[j] == old(buf)@[j],
        decreases number@.len() - k,
    {
        buf[k] = number[k];
        k += 1;
    }
    buf[number.len()] = 0x25;
    let all = buf.as_slice();
    let shown = &all[0..number.len() + 1];
    assert(shown@ =~= decimal_digits(n as nat).push(0x25));
    assert(buf@.subrange(0, (number@.len() + 1) as int) =~= decimal_digits(n as nat).push(0x25));
    assert(buf@.subrange((number@.len() + 1) as int, 10) =~= old(buf)@.subrange((number@.len() + 1) as int, 10));
    proof {
        lemma_digits_are_ascii(n as nat);
        let chars = Seq::new(shown@.len(), |i: int| shown@[i] as char);
        assert(is_ascii_chars(chars)) by {
            assert forall|i: int| 0 <= i < chars.len() implies '\0' <= #[trigger] chars[i] <= '\u{7f}' by {
                if i < shown@.len() - 1 {
                    assert(is_ascii_digit(decimal_digits(n as nat)[i]));
                }
            }
        }
        is_ascii_chars_encode_utf8(chars);
        assert(encode_utf8(chars) =~= shown@);
        encode_utf8_valid_utf8(chars);
    }
    match crate::textutil::str_from_utf8(shown) {
        Some(s) => s,
        None => {
            proof {
                reveal_strlit("?");
            }
            "?"
        },
    }
}

/// Writing `bytes` into `buf` at `cursor` as far as room allows: the new
/// buffer and the new cursor.
pub open spec fn pushed_bytes(buf: Seq<u8>, cursor: int, bytes: Seq<u8>) -> (Seq<u8>, int) {
    let room = if cursor < buf.len() {
        buf.len() - cursor
    } else {
        0
    };
    let k = if bytes.len() < room {
        bytes.len() as int
    } else {
        room
    };
    (buf.take(cursor) + bytes.take(k) + buf.skip(cursor + k), cursor + k)
}

/// Copies the bytes of `value` into `buf` from `cursor` on, stopping when
/// the buffer is full, and advances the cursor past them.
pub fn push_bytes(buf: &mut [u8], cursor: &mut usize, value: &str)
    ensures
        *old(cursor) <= old(buf)@.len() ==> (final(buf)@, *final(cursor) as int) == pushed_bytes(
            old(buf)@,
            *old(cursor) as int,
            value.spec_bytes(),
        ),
        *old(cursor) > old(buf)@.len() ==> final(buf)@ == old(buf)@ && *final(cursor) == *old(
            cursor,
        ),
{
    let bytes = value.as_bytes();
    push_slice(buf, cursor, bytes);
}

fn push_slice(buf: &mut [u8], cursor: &mut usize, bytes: &[u8])
    ensures
        *old(cursor) <= old(buf)@.len() ==> (final(buf)@, *final(cursor) as int) == pushed_bytes(
            old(buf)@,
            *old(cursor) as int,
            bytes@,
        ),
        *old(cursor) > old(buf)@.len() ==> final(buf)@ == old(buf)@ && *final(cursor) == *old(
            cursor,
        ),
{
    let start = *cursor;
    let mut k: usize = 0;
    while k < bytes.len()
        invariant_except_break
            k <= bytes@.len(),
        invariant
            k <= bytes@.len(),
            buf@.len() == old(buf)@.len(),
            *cursor == start + k,
            start == *old(cursor),
            k > 0 ==> start + k <= buf@.len(),
            forall|i: int|
                0 <= i < buf@.len() ==> #[trigger] buf@[i] == if start <= i < start + k {
                    bytes@[i - start]
                } else {
                    old(buf)@[i]
                },
        ensures
            k == bytes@.len() || *cursor >= buf@.len(),
        decreases bytes@.len() - k,
    {
        if *cursor >= buf.len() {
            break;
        }
        let at = *cursor;
        buf[at] = bytes[k];
        *cursor = at + 1;
        k += 1;
    }
    proof {
        if start <= old(buf)@.len() {
            let (nb, nc) = pushed_bytes(old(buf)@, start as int, bytes@);
            assert(nc == *cursor);
            assert(buf@ =~= nb);
        }
    }
}

/// Writes `value` in decimal into `buf` from `cursor` on, as far as room allows.
pub fn push_number(buf: &mut [u8], cursor: &mut usize, value: usize)
    ensures
        *old(cursor) <= old(buf)@.len() ==> (final(buf)@, *final(cursor) as int) == pushed_bytes(
            old(buf)@,
            *old(cursor) as int,
            decimal_digits(value as nat),
        ),
        *old(cursor) > old(buf)@.len() ==> final(buf)@ == old(buf)@ && *final(cursor) == *old(
            cursor,
        ),
{
    let mut digits = [0u8; 20];
    let start = write_usize_digits(value, &mut digits);
    let all = digits.as_slice();
    let shown = &all[start..20];
    push_slice(buf, cursor, shown);
}

} // verus!
