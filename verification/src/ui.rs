//! Drawing the portrait shell: UI coordinates laid out for the way the
//! reader is held, painted onto the landscape framebuffer.
use vstd::prelude::*;
use crate::app_types::DisplayOrientation;
use crate::fb::Framebuffer;
use crate::geometry::Rect;
use crate::shell::{
    HEIGHT, WIDTH, map_ui_pixel, map_ui_pixel_spec, progress_fill, progress_fill_spec,
    progress_fill_width,
};

verus! {

/// The UI point that lands on panel pixel `(a, b)`.
pub open spec fn ui_point_of(orientation: DisplayOrientation, a: int, b: int) -> (int, int) {
    match orientation {
        DisplayOrientation::LandscapeButtonsBottom => (a, b),
        DisplayOrientation::LandscapeButtonsTop => (WIDTH - 1 - a, HEIGHT - 1 - b),
        DisplayOrientation::PortraitButtonsRight => (b, WIDTH - 1 - a),
        DisplayOrientation::PortraitButtonsLeft => (HEIGHT - 1 - b, a),
    }
}

/// A UI point lands on a panel pixel exactly when that pixel's UI point is it.
pub proof fn lemma_ui_point_of(orientation: DisplayOrientation, x: int, y: int, a: int, b: int)
    requires
        0 <= x,
        0 <= y,
        0 <= a < WIDTH,
        0 <= b < HEIGHT,
    ensures
        map_ui_pixel_spec(orientation, x, y) == Some((a, b)) <==> ui_point_of(orientation, a, b)
            == (x, y),
{
}

/// A drawing surface over the framebuffer for one way of holding the reader.
pub struct Ui<'a> {
    pub fb: &'a mut Framebuffer,
    pub orientation: DisplayOrientation,
}

impl<'a> Ui<'a> {
    pub fn new(fb: &'a mut Framebuffer, orientation: DisplayOrientation) -> (ui: Self)
        ensures
            *ui.fb == *old(fb),
            *final(ui.fb) == *final(fb),
            ui.orientation == orientation,
    {
        Self { fb, orientation }
    }

    /// Paints the UI pixel `(x, y)`; points off the screen are ignored.
    pub fn set_pixel(&mut self, x: usize, y: usize, white: bool)
        requires
            old(self).fb.wf(),
        ensures
            final(self).fb.wf(),
            final(self).orientation == old(self).orientation,
            forall|a: int, b: int|
                0 <= a < WIDTH && 0 <= b < HEIGHT ==> #[trigger] final(self).fb.px(a, b) == if ui_point_of(
                    old(self).orientation,
                    a,
                    b,
                ) == (x as int, y as int) {
                    white
                } else {
                    old(self).fb.px(a, b)
                },
    {
        match map_ui_pixel(self.orientation, x, y) {
            Some((fx, fy)) => {
                self.fb.set_pixel(fx, fy, white);
                proof {
                    assert forall|a: int, b: int| 0 <= a < WIDTH && 0 <= b < HEIGHT implies (ui_point_of(
                        old(self).orientation,
                        a,
                        b,
                    ) == (x as int, y as int)) == (a == fx && b == fy) by {
                        lemma_ui_point_of(old(self).orientation, x as int, y as int, a, b);
                    }
                }
            },
            None => {
                proof {
                    assert forall|a: int, b: int| 0 <= a < WIDTH && 0 <= b < HEIGHT implies ui_point_of(
                        old(self).orientation,
                        a,
                        b,
                    ) != (x as int, y as int) by {
                        lemma_ui_point_of(old(self).orientation, x as int, y as int, a, b);
                    }
                }
            },
        }
    }

    /// Paints the UI rectangle `[x, x + w) x [y, y + h)` (ends saturating at
    /// `u16::MAX`).
    pub fn fill_rect(&mut self, x: u16, y: u16, w: u16, h: u16, white: bool)
        requires
            old(self).fb.wf(),
        ensures
            final(self).fb.wf(),
            final(self).orientation == old(self).orientation,
            forall|a: int, b: int|
                0 <= a < WIDTH && 0 <= b < HEIGHT ==> #[trigger] final(self).fb.px(a, b) == if in_span(
                    ui_point_of(old(self).orientation, a, b).0,
                    x as int,
                    w as int,
                ) && in_span(ui_point_of(old(self).orientation, a, b).1, y as int, h as int) {
                    white
                } else {
                    old(self).fb.px(a, b)
                },
    {
        let y_end = y.saturating_add(h);
        let x_end = x.saturating_add(w);
        let ghost o = self.orientation;
        let ghost start = *self.fb;
        let mut yy = y;
        while yy < y_end
            invariant
                self.fb.wf(),
                self.orientation == o,
                o == old(self).orientation,
                start == *old(self).fb,
                y <= yy <= y_end,
                y_end == span_end(y as int, h as int),
                x_end == span_end(x as int, w as int),
                forall|a: int, b: int|
                    0 <= a < WIDTH && 0 <= b < HEIGHT ==> #[trigger] self.fb.px(a, b) == if x
                        <= ui_point_of(o, a, b).0 < x_end && y <= ui_point_of(o, a, b).1 < yy {
                        white
                    } else {
                        start.px(a, b)
                    },
            decreases y_end - yy,
        {
            let mut xx = x;
            while xx < x_end
                invariant
                    self.fb.wf(),
                    self.orientation == o,
                    y <= yy < y_end,
                    x <= xx <= x_end,
                    forall|a: int, b: int|
                        0 <= a < WIDTH && 0 <= b < HEIGHT ==> #[trigger] self.fb.px(a, b) == if (x
                            <= ui_point_of(o, a, b).0 < x_end && y <= ui_point_of(o, a, b).1 < yy)
                            || (x <= ui_point_of(o, a, b).0 < xx && ui_point_of(o, a, b).1 == yy) {
                            white
                        } else {
                            start.px(a, b)
                        },
                decreases x_end - xx,
            {
                self.set_pixel(xx as usize, yy as usize, white);
                xx += 1;
            }
            yy += 1;
        }
    }

    /// Outlines the UI rectangle with corners `(x, y)` and
    /// `(x + w - 1, y + h - 1)`; an empty rectangle draws nothing.
    pub fn stroke_rect(&mut self, x: u16, y: u16, w: u16, h: u16, white: bool)
        requires
            old(self).fb.wf(),
            w == 0 || x + w <= u16::MAX,
            h == 0 || y + h <= u16::MAX,
        ensures
            final(self).fb.wf(),
            final(self).orientation == old(self).orientation,
            forall|a: int, b: int|
                0 <= a < WIDTH && 0 <= b < HEIGHT ==> #[trigger] final(self).fb.px(a, b) == if w
                    > 0 && h > 0 && on_outline(
                    ui_point_of(old(self).orientation, a, b),
                    x as int,
                    y as int,
                    x + w - 1,
                    y + h - 1,
                ) {
                    white
                } else {
                    old(self).fb.px(a, b)
                },
    {
        if w == 0 || h == 0 {
            return;
        }
        let x1 = x + w - 1;
        let y1 = y + h - 1;
        let ghost o = self.orientation;
        let ghost start = *self.fb;
        let mut xx = x;
        loop
            invariant_except_break
                xx <= x1,
                forall|a: int, b: int|
                    0 <= a < WIDTH && 0 <= b < HEIGHT ==> #[trigger] self.fb.px(a, b) == if x
                        <= ui_point_of(o, a, b).0 < xx && (ui_point_of(o, a, b).1 == y
                        || ui_point_of(o, a, b).1 == y1) {
                        white
                    } else {
                        start.px(a, b)
                    },
            invariant
                self.fb.wf(),
                self.orientation == o,
                o == old(self).orientation,
                start == *old(self).fb,
                x <= xx,
                x1 == x + w - 1,
                y1 == y + h - 1,
            ensures
                forall|a: int, b: int|
                    0 <= a < WIDTH && 0 <= b < HEIGHT ==> #[trigger] self.fb.px(a, b) == if x
                        <= ui_point_of(o, a, b).0 <= x1 && (ui_point_of(o, a, b).1 == y
                        || ui_point_of(o, a, b).1 == y1) {
                        white
                    } else {
                        start.px(a, b)
                    },
            decreases x1 - xx,
        {
            self.set_pixel(xx as usize, y as usize, white);
            self.set_pixel(xx as usize, y1 as usize, white);
            if xx == x1 {
                break;
            }
            xx += 1;
        }
        let mut yy = y;
        loop
            invariant_except_break
                yy <= y1,
                forall|a: int, b: int|
                    0 <= a < WIDTH && 0 <= b < HEIGHT ==> #[trigger] self.fb.px(a, b) == if (x
                        <= ui_point_of(o, a, b).0 <= x1 && (ui_point_of(o, a, b).1 == y
                        || ui_point_of(o, a, b).1 == y1)) || (y <= ui_point_of(o, a, b).1 < yy
                        && (ui_point_of(o, a, b).0 == x || ui_point_of(o, a, b).0 == x1)) {
                        white
                    } else {
                        start.px(a, b)
                    },
            invariant
                self.fb.wf(),
                self.orientation == o,
                y <= yy,
                x1 == x + w - 1,
                y1 == y + h - 1,
            ensures
                forall|a: int, b: int|
                    0 <= a < WIDTH && 0 <= b < HEIGHT ==> #[trigger] self.fb.px(a, b) == if on_outline(
                        ui_point_of(o, a, b),
                        x as int,
                        y as int,
                        x1 as int,
                        y1 as int,
                    ) {
                        white
                    } else {
                        start.px(a, b)
                    },
            decreases y1 - yy,
        {
            self.set_pixel(x as usize, yy as usize, white);
            self.set_pixel(x1 as usize, yy as usize, white);
            if yy == y1 {
                break;
            }
            yy += 1;
        }
    }

    /// Paints a 5x7 glyph given by its columns (bit `row` of each column
    /// byte set = ink) with its top-left corner at UI point `(x, y)`.
    pub fn draw_glyph(&mut self, glyph: &[u8], x: usize, y: usize, white: bool)
        requires
            old(self).fb.wf(),
            x + glyph@.len() <= usize::MAX,
            y + 7 <= usize::MAX,
        ensures
            final(self).fb.wf(),
            final(self).orientation == old(self).orientation,
            forall|a: int, b: int|
                0 <= a < WIDTH && 0 <= b < HEIGHT ==> #[trigger] final(self).fb.px(a, b) == if glyph_ink(
                    glyph@,
                    ui_point_of(old(self).orientation, a, b).0 - x,
                    ui_point_of(old(self).orientation, a, b).1 - y,
                ) {
                    white
                } else {
                    old(self).fb.px(a, b)
                },
    {
        let ghost o = self.orientation;
        let ghost start = *self.fb;
        let mut col: usize = 0;
        while col < glyph.len()
            invariant
                self.fb.wf(),
                self.orientation == o,
                o == old(self).orientation,
                start == *old(self).fb,
                col <= glyph@.len(),
                x + glyph@.len() <= usize::MAX,
                y + 7 <= usize::MAX,
                forall|a: int, b: int|
                    0 <= a < WIDTH && 0 <= b < HEIGHT ==> #[trigger] self.fb.px(a, b) == if ui_point_of(
                        o,
                        a,
                        b,
                    ).0 - x < col && glyph_ink(
                        glyph@,
                        ui_point_of(o, a, b).0 - x,
                        ui_point_of(o, a, b).1 - y,
                    ) {
                        white
                    } else {
                        start.px(a, b)
                    },
            decreases glyph@.len() - col,
        {
            let bits = glyph[col];
            let mut row: usize = 0;
            while row < 7
                invariant
                    self.fb.wf(),
                    self.orientation == o,
                    col < glyph@.len(),
                    bits == glyph@[col as int],
                    row <= 7,
                    x + glyph@.len() <= usize::MAX,
                    y + 7 <= usize::MAX,
                    forall|a: int, b: int|
                        0 <= a < WIDTH && 0 <= b < HEIGHT ==> #[trigger] self.fb.px(a, b) == if (
                        ui_point_of(o, a, b).0 - x < col && glyph_ink(
                            glyph@,
                            ui_point_of(o, a, b).0 - x,
                            ui_point_of(o, a, b).1 - y,
                        )) || (ui_point_of(o, a, b).0 - x == col && ui_point_of(o, a, b).1 - y
                            < row && glyph_ink(
                            glyph@,
                            ui_point_of(o, a, b).0 - x,
                            ui_point_of(o, a, b).1 - y,
                        )) {
                            white
                        } else {
                            start.px(a, b)
                        },
                decreases 7 - row,
            {
                if bits & (1u8 << (row as u8)) != 0 {
                    self.set_pixel(x + col, y + row, white);
                }
                row += 1;
            }
            col += 1;
        }
    }
}

/// Whether UI point `p` is inked by a progress bar drawn in the UI rectangle
/// `(x, y, w, h)` at `permille`: its outline, and the filled part inside.
pub open spec fn progress_bar_ink(p: (int, int), x: u16, y: u16, w: u16, h: u16, permille: u16) -> bool {
    ||| (w > 0 && h > 0 && on_outline(p, x as int, y as int, x + w - 1, y + h - 1))
    ||| (progress_fill_spec(Rect { x, y, w, h }, permille) matches Some(f) && in_span(
        p.0,
        f.x as int,
        f.w as int,
    ) && in_span(p.1, f.y as int, f.h as int))
}

/// Draws a progress bar in black: the outline of the rectangle and, inside a
/// 2-pixel border, `permille` (capped at 1000) of its width filled.
pub fn draw_progress_bar_ui(ui: &mut Ui<'_>, x: u16, y: u16, w: u16, h: u16, permille: u16)
    requires
        old(ui).fb.wf(),
        w == 0 || x + w <= u16::MAX,
        h == 0 || y + h <= u16::MAX,
        progress_fill_width(w, permille) > 0 && h == 0 ==> y < u16::MAX,
    ensures
        final(ui).fb.wf(),
        final(ui).orientation == old(ui).orientation,
        forall|a: int, b: int|
            0 <= a < WIDTH && 0 <= b < HEIGHT ==> #[trigger] final(ui).fb.px(a, b) == if progress_bar_ink(
                ui_point_of(old(ui).orientation, a, b),
                x,
                y,
                w,
                h,
                permille,
            ) {
                false
            } else {
                old(ui).fb.px(a, b)
            },
{
    ui.stroke_rect(x, y, w, h, false);
    let rect = Rect::new(x, y, w, h);
    assert(progress_fill_width(w, permille) > 0 ==> w >= 5) by (nonlinear_arith)
        requires
            progress_fill_width(w, permille) == (if w >= 4 { w - 4 } else { 0 }) * (if permille
                <= 1000 {
                permille
            } else {
                1000
            }) / 1000,
    ;
    match progress_fill(rect, permille) {
        Some(f) => {
            ui.fill_rect(f.x, f.y, f.w, f.h, false);
        },
        None => {},
    }
}

/// Whether UI point `p` is inked by a battery icon at `(x, y)` showing
/// `bars` bars: a 36x16 outline, a 4x6 nub on its right, and up to four 5x8
/// bars spaced 8 pixels apart inside.
pub open spec fn battery_icon_ink(p: (int, int), x: u16, y: u16, bars: u8) -> bool {
    let n: int = if bars <= 4 {
        bars as int
    } else {
        4
    };
    ||| on_outline(p, x as int, y as int, x + 35, y + 15)
    ||| (in_span(p.0, x + 36, 4) && y + 5 <= p.1 < y + 11)
    ||| (in_bar_columns(p.0 - (x + 4), n) && y + 4 <= p.1 < y + 12)
}

/// Whether column offset `d` falls on one of the first `n` 5-pixel bars
/// spaced 8 pixels apart.
pub open spec fn in_bar_columns(d: int, n: int) -> bool {
    0 <= d < 8 * n && d % 8 < 5
}

/// Draws the battery icon in black with `bars` (at most four) charge bars.
pub fn draw_battery_icon_ui(ui: &mut Ui<'_>, x: u16, y: u16, bars: u8)
    requires
        old(ui).fb.wf(),
        x + 36 <= u16::MAX,
        y + 16 <= u16::MAX,
    ensures
        final(ui).fb.wf(),
        final(ui).orientation == old(ui).orientation,
        forall|a: int, b: int|
            0 <= a < WIDTH && 0 <= b < HEIGHT ==> #[trigger] final(ui).fb.px(a, b) == if battery_icon_ink(
                ui_point_of(old(ui).orientation, a, b),
                x,
                y,
                bars,
            ) {
                false
            } else {
                old(ui).fb.px(a, b)
            },
{
    let ghost o = ui.orientation;
    let ghost start = *ui.fb;
    ui.stroke_rect(x, y, 36, 16, false);
    ui.fill_rect(x + 36, y + 5, 4, 6, false);
    let n: u8 = if bars <= 4 {
        bars
    } else {
        4
    };
    let mut bar: u8 = 0;
    while bar < n
        invariant
            ui.fb.wf(),
            ui.orientation == o,
            o == old(ui).orientation,
            start == *old(ui).fb,
            x + 36 <= u16::MAX,
            y + 16 <= u16::MAX,
            n <= 4,
            n == (if bars <= 4 { bars } else { 4 }),
            bar <= n,
            forall|a: int, b: int|
                0 <= a < WIDTH && 0 <= b < HEIGHT ==> #[trigger] ui.fb.px(a, b) == if ({
                    let p = ui_point_of(o, a, b);
                    ||| on_outline(p, x as int, y as int, x + 35, y + 15)
                    ||| (in_span(p.0, x + 36, 4) && y + 5 <= p.1 < y + 11)
                    ||| (in_bar_columns(p.0 - (x + 4), bar as int) && y + 4 <= p.1 < y + 12)
                }) {
                    false
                } else {
                    start.px(a, b)
                },
        decreases n - bar,
    {
        let bx = x + 4 + bar as u16 * 8;
        ui.fill_rect(bx, y + 4, 5, 8, false);
        proof {
            assert forall|d: int| #[trigger]
                in_bar_columns(d, bar + 1) <==> in_bar_columns(d, bar as int) || (8 * bar <= d < 8
                    * bar + 5) by {
                if 8 * bar <= d < 8 * bar + 8 {
                    assert(d % 8 == d - 8 * bar) by (nonlinear_arith)
                        requires
                            8 * bar <= d < 8 * bar + 8,
                    ;
                }
            }
        }
        bar += 1;
    }
}

/// Whether `v` lies in `[start, start + len)`, the end saturating at `u16::MAX`.
pub open spec fn in_span(v: int, start: int, len: int) -> bool {
    start <= v < span_end(start, len)
}

/// `start + len`, saturating at `u16::MAX`.
pub open spec fn span_end(start: int, len: int) -> int {
    if start + len > u16::MAX {
        u16::MAX as int
    } else {
        start + len
    }
}

/// Whether UI point `p` lies on the outline of the rectangle with corners
/// `(x0, y0)` and `(x1, y1)`.
pub open spec fn on_outline(p: (int, int), x0: int, y0: int, x1: int, y1: int) -> bool {
    ||| (x0 <= p.0 <= x1 && (p.1 == y0 || p.1 == y1))
    ||| (y0 <= p.1 <= y1 && (p.0 == x0 || p.0 == x1))
}

/// Whether the glyph inks column `col`, row `row` (rows 0 to 6).
pub open spec fn glyph_ink(glyph: Seq<u8>, col: int, row: int) -> bool {
    0 <= col < glyph.len() && 0 <= row < 7 && glyph[col] & (1u8 << (row as u8)) != 0
}

} // verus!
