//! The 1-bit framebuffer of the 800x480 panel and the two transforms the
//! firmware applies to it: the long-axis mirror of the sleep and reading
//! screens, and the mirrored, bit-reversed bands streamed to the panel.
use vstd::prelude::*;
use crate::shell::{HEIGHT, WIDTH};

verus! {

/// Bytes per panel row, one bit per pixel.
pub const ROW_BYTES: usize = 100;
/// Bytes of the whole framebuffer.
pub const FB_BYTES: usize = 48000;
/// Rows per band streamed to the panel.
pub const BAND_ROWS: usize = 80;
/// Bytes per band.
pub const BAND_BYTES: usize = 8000;

/// The mask of pixel column `x` within its byte: the leftmost pixel is the
/// top bit.
pub open spec fn bit_mask(x: int) -> u8 {
    (0x80u8 >> ((x % 8) as u8)) as u8
}

/// Whether pixel `(x, y)` of a row-major 1-bit buffer is white (bit set).
pub open spec fn pixel_at(bytes: Seq<u8>, x: int, y: int) -> bool {
    bytes[y * ROW_BYTES + x / 8] & bit_mask(x) != 0
}

/// A row-major 1-bit framebuffer, 100 bytes per row, white = 1.
pub struct Framebuffer {
    pub bytes: Vec<u8>,
}

proof fn lemma_bit_set(b: u8, k: u8, j: u8)
    requires
        k < 8,
        j < 8,
    ensures
        (b | (0x80u8 >> k)) & (0x80u8 >> j) != 0 <==> (j == k || b & (0x80u8 >> j) != 0),
        (b & !(0x80u8 >> k)) & (0x80u8 >> j) != 0 <==> (j != k && b & (0x80u8 >> j) != 0),
{
    assert((b | (0x80u8 >> k)) & (0x80u8 >> j) != 0 <==> (j == k || b & (0x80u8 >> j) != 0))
        by (bit_vector)
        requires
            k < 8,
            j < 8,
    ;
    assert((b & !(0x80u8 >> k)) & (0x80u8 >> j) != 0 <==> (j != k && b & (0x80u8 >> j) != 0))
        by (bit_vector)
        requires
            k < 8,
            j < 8,
    ;
}

impl Framebuffer {
    pub open spec fn wf(&self) -> bool {
        self.bytes@.len() == FB_BYTES
    }

    /// Whether pixel `(x, y)` is white.
    pub open spec fn px(&self, x: int, y: int) -> bool {
        pixel_at(self.bytes@, x, y)
    }

    /// An all-white framebuffer.
    pub fn new() -> (fb: Self)
        ensures
            fb.wf(),
            fb.bytes@ == Seq::new(FB_BYTES as nat, |i: int| 0xffu8),
    {
        let mut bytes: Vec<u8> = Vec::new();
        while bytes.len() < FB_BYTES
            invariant
                bytes@.len() <= FB_BYTES,
                forall|i: int| 0 <= i < bytes@.len() ==> bytes@[i] == 0xff,
            decreases FB_BYTES - bytes@.len(),
        {
            bytes.push(0xff);
        }
        assert(bytes@ =~= Seq::new(FB_BYTES as nat, |i: int| 0xffu8));
        Framebuffer { bytes }
    }

    /// Paints every pixel white or black.
    pub fn clear(&mut self, white: bool)
        requires
            old(self).wf(),
        ensures
            final(self).wf(),
            final(self).bytes@ == Seq::new(
                FB_BYTES as nat,
                |i: int|
                    if white {
                        0xffu8
                    } else {
                        0u8
                    },
            ),
    {
        let value: u8 = if white {
            0xff
        } else {
            0
        };
        let mut i: usize = 0;
        while i < self.bytes.len()
            invariant
                self.wf(),
                i <= FB_BYTES,
                forall|k: int| 0 <= k < i ==> self.bytes@[k] == value,
            decreases FB_BYTES - i,
        {
            self.bytes[i] = value;
            i += 1;
        }
        assert(self.bytes@ =~= Seq::new(
            FB_BYTES as nat,
            |i: int|
                if white {
                    0xffu8
                } else {
                    0u8
                },
        ));
    }

    /// Takes on every pixel of `other`; the display task keeps the frame on
    /// the panel this way as the base of the next fast refresh.
    pub fn copy_from(&mut self, other: &Framebuffer)
        requires
            old(self).wf(),
            other.wf(),
        ensures
            final(self).wf(),
            final(self).bytes@ == other.bytes@,
    {
        let mut i: usize = 0;
        while i < self.bytes.len()
            invariant
                self.wf(),
                other.wf(),
                i <= FB_BYTES,
                forall|k: int| 0 <= k < i ==> self.bytes@[k] == other.bytes@[k],
            decreases FB_BYTES - i,
        {
            self.bytes[i] = other.bytes[i];
            i += 1;
        }
        assert(self.bytes@ =~= other.bytes@);
    }

    pub fn pixel(&self, x: usize, y: usize) -> (white: bool)
        requires
            self.wf(),
            x < WIDTH,
            y < HEIGHT,
        ensures
            white == self.px(x as int, y as int),
    {
        let byte = self.bytes[y * ROW_BYTES + x / 8];
        byte & (0x80u8 >> ((x % 8) as u8)) != 0
    }

    /// Paints one pixel; pixels off the panel are ignored.
    pub fn set_pixel(&mut self, x: usize, y: usize, white: bool)
        requires
            old(self).wf(),
        ensures
            final(self).wf(),
            forall|a: int, b: int|
                0 <= a < WIDTH && 0 <= b < HEIGHT ==> #[trigger] final(self).px(a, b) == if a == x
                    && b == y {
                    white
                } else {
                    old(self).px(a, b)
                },
    {
        if x >= WIDTH || y >= HEIGHT {
            return;
        }
        let index = y * ROW_BYTES + x / 8;
        let mask = 0x80u8 >> ((x % 8) as u8);
        let byte = self.bytes[index];
        let updated = if white {
            byte | mask
        } else {
            byte & !mask
        };
        self.bytes[index] = updated;
        proof {
            assert forall|a: int, b: int| 0 <= a < WIDTH && 0 <= b < HEIGHT implies #[trigger] self.px(
                a,
                b,
            ) == if a == x && b == y {
                white
            } else {
                old(self).px(a, b)
            } by {
                let ia = b * ROW_BYTES + a / 8;
                if ia == index {
                    assert(b == y) by (nonlinear_arith)
                        requires
                            ia == b * 100 + a / 8,
                            ia == y * 100 + x / 8,
                            0 <= a < 800,
                            0 <= x < 800,
                    ;
                    lemma_bit_set(byte, (x % 8) as u8, (a % 8) as u8);
                    if a % 8 == x % 8 {
                        assert(a == x);
                    }
                } else {
                    assert(0 <= ia < FB_BYTES) by (nonlinear_arith)
                        requires
                            ia == b * 100 + a / 8,
                            0 <= a < 800,
                            0 <= b < 480,
                    ;
                }
            }
        }
    }
}

/// The framebuffer flipped top to bottom: pixel `(x, y)` comes from
/// `(x, HEIGHT - 1 - y)`.
pub open spec fn mirrored_long_axis(fb: &Framebuffer, x: int, y: int) -> bool {
    fb.px(x, HEIGHT - 1 - y)
}

/// Flips the framebuffer top to bottom, swapping each row with its mirror row.
pub fn mirror_framebuffer_long_axis(fb: &mut Framebuffer)
    requires
        old(fb).wf(),
    ensures
        final(fb).wf(),
        forall|x: int, y: int|
            0 <= x < WIDTH && 0 <= y < HEIGHT ==> #[trigger] final(fb).px(x, y)
                == mirrored_long_axis(&*old(fb), x, y),
{
    let ghost orig = *fb;
    let mut y: usize = 0;
    while y < HEIGHT / 2
        invariant
            fb.wf(),
            orig.wf(),
            orig == *old(fb),
            y <= HEIGHT / 2,
            forall|a: int, b: int|
                0 <= a < WIDTH && 0 <= b < HEIGHT ==> #[trigger] fb.px(a, b) == if b < y || b
                    >= HEIGHT - y {
                    orig.px(a, HEIGHT - 1 - b)
                } else {
                    orig.px(a, b)
                },
        decreases HEIGHT / 2 - y,
    {
        let other_y = HEIGHT - 1 - y;
        let mut x: usize = 0;
        while x < WIDTH
            invariant
                fb.wf(),
                y < HEIGHT / 2,
                other_y == HEIGHT - 1 - y,
                x <= WIDTH,
                forall|a: int, b: int|
                    0 <= a < WIDTH && 0 <= b < HEIGHT ==> #[trigger] fb.px(a, b) == if b < y || b
                        >= HEIGHT - y || ((b == y || b == other_y) && a < x) {
                        orig.px(a, HEIGHT - 1 - b)
                    } else {
                        orig.px(a, b)
                    },
            decreases WIDTH - x,
        {
            let top = fb.pixel(x, y);
            let bottom = fb.pixel(x, other_y);
            fb.set_pixel(x, y, bottom);
            fb.set_pixel(x, other_y, top);
            x += 1;
        }
        y += 1;
    }
}

/// Flipping top to bottom twice gives the picture back.
pub proof fn mirror_twice_is_identity(fb: Framebuffer, x: int, y: int)
    requires
        0 <= x < WIDTH,
        0 <= y < HEIGHT,
    ensures
        mirrored_long_axis(&fb, x, HEIGHT - 1 - y) == fb.px(x, y),
{
}

/// `b` with its bit order reversed.
pub open spec fn reverse_bits_spec(b: u8) -> u8 {
    (((b & 0x01) << 7u8) | ((b & 0x02) << 5u8) | ((b & 0x04) << 3u8) | ((b & 0x08) << 1u8) | ((b
        & 0x10) >> 1u8) | ((b & 0x20) >> 3u8) | ((b & 0x40) >> 5u8) | ((b & 0x80) >> 7u8)) as u8
}

/// `u8::reverse_bits`, which the `std` documentation defines as reversing
/// the order of the bits.
fn reverse_bits(b: u8) -> (r: u8)
    ensures
        r == reverse_bits_spec(b),
{
    ((b & 0x01) << 7u8) | ((b & 0x02) << 5u8) | ((b & 0x04) << 3u8) | ((b & 0x08) << 1u8) | ((b
        & 0x10) >> 1u8) | ((b & 0x20) >> 3u8) | ((b & 0x40) >> 5u8) | ((b & 0x80) >> 7u8)
}

/// Reversing the bits moves pixel column `k` of a byte to column `7 - k`.
pub proof fn lemma_reverse_bits_mask(b: u8, k: u8)
    requires
        k < 8,
    ensures
        reverse_bits_spec(b) & (0x80u8 >> k) != 0 <==> b & (0x80u8 >> (7 - k) as u8) != 0,
{
    assert(reverse_bits_spec(b) & (0x80u8 >> k) != 0 <==> b & (0x80u8 >> (7 - k) as u8) != 0)
        by (bit_vector)
        requires
            k < 8,
    ;
}

/// Fills `out` with the rows of the band starting at `band_y` as the panel
/// wants them: each row mirrored left to right (bytes in reverse order,
/// bits reversed). Returns the number of bytes filled.
pub fn fill_transformed_band(fb: &Framebuffer, band_y: usize, out: &mut [u8; BAND_BYTES]) -> (len:
    usize)
    requires
        fb.wf(),
        band_y < HEIGHT,
    ensures
        len == ROW_BYTES * (if BAND_ROWS <= HEIGHT - band_y {
            BAND_ROWS as int
        } else {
            HEIGHT - band_y
        }),
        forall|r: int, c: int|
            0 <= r && 0 <= c < ROW_BYTES && r * ROW_BYTES + c < len ==> #[trigger] final(out)@[r
                * ROW_BYTES + c] == reverse_bits_spec(
                fb.bytes@[(band_y + r) * ROW_BYTES + (ROW_BYTES - 1 - c)],
            ),
        forall|i: int| len <= i < BAND_BYTES ==> #[trigger] final(out)@[i] == old(out)@[i],
{
    proof {
        broadcast use vstd::array::group_array_axioms;
    }
    let rows = if BAND_ROWS <= HEIGHT - band_y {
        BAND_ROWS
    } else {
        HEIGHT - band_y
    };
    let len = rows * ROW_BYTES;
    let mut out_row: usize = 0;
    while out_row < rows
        invariant
            fb.wf(),
            band_y < HEIGHT,
            rows <= BAND_ROWS,
            band_y + rows <= HEIGHT,
            out_row <= rows,
            out@.len() == BAND_BYTES,
            forall|r: int, c: int|
                0 <= r < out_row && 0 <= c < ROW_BYTES ==> #[trigger] out@[r * ROW_BYTES + c]
                    == reverse_bits_spec(
                    fb.bytes@[(band_y + r) * ROW_BYTES + (ROW_BYTES - 1 - c)],
                ),
            forall|i: int| out_row * ROW_BYTES <= i < BAND_BYTES ==> #[trigger] out@[i] == old(
                out,
            )@[i],
        decreases rows - out_row,
    {
        let src_y = band_y + out_row;
        let mut out_byte: usize = 0;
        while out_byte < ROW_BYTES
            invariant
                fb.wf(),
                rows <= BAND_ROWS,
                out_row < rows,
                src_y == band_y + out_row,
                src_y < HEIGHT,
                out_byte <= ROW_BYTES,
                out@.len() == BAND_BYTES,
                forall|r: int, c: int|
                    0 <= r < out_row && 0 <= c < ROW_BYTES ==> #[trigger] out@[r * ROW_BYTES + c]
                        == reverse_bits_spec(
                        fb.bytes@[(band_y + r) * ROW_BYTES + (ROW_BYTES - 1 - c)],
                    ),
                forall|c: int|
                    0 <= c < out_byte ==> #[trigger] out@[out_row * ROW_BYTES + c]
                        == reverse_bits_spec(
                        fb.bytes@[(band_y + out_row) * ROW_BYTES + (ROW_BYTES - 1 - c)],
                    ),
                forall|i: int| out_row * ROW_BYTES + out_byte <= i < BAND_BYTES ==> #[trigger] out@[i]
                    == old(out)@[i],
            decreases ROW_BYTES - out_byte,
        {
            let src_byte = ROW_BYTES - 1 - out_byte;
            let value = reverse_bits(fb.bytes[src_y * ROW_BYTES + src_byte]);
            out[out_row * ROW_BYTES + out_byte] = value;
            proof {
                assert forall|r: int, c: int|
                    0 <= r < out_row && 0 <= c < ROW_BYTES implies #[trigger] out@[r * ROW_BYTES
                    + c] == reverse_bits_spec(
                    fb.bytes@[(band_y + r) * ROW_BYTES + (ROW_BYTES - 1 - c)],
                ) by {
                    assert(r * ROW_BYTES + c < out_row * ROW_BYTES) by (nonlinear_arith)
                        requires
                            r < out_row,
                            c < 100,
                    ;
                }
            }
            out_byte += 1;
        }
        proof {
            assert forall|r: int, c: int|
                0 <= r < out_row + 1 && 0 <= c < ROW_BYTES implies #[trigger] out@[r * ROW_BYTES
                + c] == reverse_bits_spec(
                fb.bytes@[(band_y + r) * ROW_BYTES + (ROW_BYTES - 1 - c)],
            ) by {
                if r == out_row {
                }
            }
        }
        out_row += 1;
    }
    proof {
        assert forall|r: int, c: int|
            0 <= r && 0 <= c < ROW_BYTES && r * ROW_BYTES + c < len implies #[trigger] out@[r
            * ROW_BYTES + c] == reverse_bits_spec(
            fb.bytes@[(band_y + r) * ROW_BYTES + (ROW_BYTES - 1 - c)],
        ) by {
            assert(r < rows) by (nonlinear_arith)
                requires
                    r * 100 + c < rows * 100,
                    0 <= c,
                    0 <= r,
            ;
        }
    }
    len
}

/// In a band filled by [`fill_transformed_band`], pixel column `c` of row
/// `r` shows the framebuffer pixel at column `WIDTH - 1 - c` of row
/// `band_y + r`: the panel receives each row mirrored left to right.
pub proof fn band_mirrors_each_row(fb: Framebuffer, band_y: int, out: Seq<u8>, len: int, r: int, c: int)
    requires
        fb.wf(),
        0 <= band_y,
        0 <= r,
        band_y + r < HEIGHT,
        0 <= c < WIDTH,
        r * ROW_BYTES + c / 8 < len,
        forall|rr: int, cc: int|
            0 <= rr && 0 <= cc < ROW_BYTES && rr * ROW_BYTES + cc < len ==> #[trigger] out[rr
                * ROW_BYTES + cc] == reverse_bits_spec(
                fb.bytes@[(band_y + rr) * ROW_BYTES + (ROW_BYTES - 1 - cc)],
            ),
    ensures
        pixel_at(out, c, r) == fb.px(WIDTH - 1 - c, band_y + r),
{
    let cc = c / 8;
    assert(out[r * ROW_BYTES + cc] == reverse_bits_spec(
        fb.bytes@[(band_y + r) * ROW_BYTES + (ROW_BYTES - 1 - cc)],
    ));
    assert((WIDTH - 1 - c) / 8 == ROW_BYTES - 1 - cc);
    assert((WIDTH - 1 - c) % 8 == 7 - c % 8);
    lemma_reverse_bits_mask(
        fb.bytes@[(band_y + r) * ROW_BYTES + (ROW_BYTES - 1 - cc)],
        (c % 8) as u8,
    );
}

} // verus!
