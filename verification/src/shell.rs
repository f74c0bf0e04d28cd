//! The display task's decisions: refresh mode and panel state, the card
//! library list, labels, the battery gauge, progress bars and the mapping
//! of portrait UI coordinates onto the landscape panel.
use vstd::prelude::*;
use vstd::string::*;
use crate::app_types::{AppView, Button, DisplayOrientation, RefreshPolicy};
use crate::geometry::Rect;
use crate::hstring::{hstr64, hstr64_as_str, hstr64_new, hstr64_push_str, utf8_len};

verus! {

/// Panel width in pixels.
pub const WIDTH: usize = 800;
/// Panel height in pixels.
pub const HEIGHT: usize = 480;

pub const FAST_REFRESH_ENABLED: bool = true;
pub const PERIODIC_FULL_REFRESH_ENABLED: bool = false;
pub const FULL_REFRESH_INTERVAL: u8 = 8;
pub const MAX_SD_BOOKS: usize = 8;

/// How the panel redraws.
#[derive(Clone, Copy, Debug, PartialEq, Eq, Structural)]
pub enum RefreshMode {
    Full,
    Fast,
    PowerDown,
}

/// A fast refresh when the panel is already showing an image and no
/// periodic cleanup is due; otherwise a full one.
pub open spec fn refresh_mode_spec(screen_on: bool, fast_refreshes: u8) -> RefreshMode {
    let cleanup_due = PERIODIC_FULL_REFRESH_ENABLED && fast_refreshes >= FULL_REFRESH_INTERVAL;
    if FAST_REFRESH_ENABLED && screen_on && !cleanup_due {
        RefreshMode::Fast
    } else {
        RefreshMode::Full
    }
}

pub fn refresh_mode(screen_on: bool, fast_refreshes: u8) -> (m: RefreshMode)
    ensures
        m == refresh_mode_spec(screen_on, fast_refreshes),
{
    let cleanup_due = PERIODIC_FULL_REFRESH_ENABLED && fast_refreshes >= FULL_REFRESH_INTERVAL;
    if FAST_REFRESH_ENABLED && screen_on && !cleanup_due {
        RefreshMode::Fast
    } else {
        RefreshMode::Full
    }
}

/// Which frame goes into the panel's RED RAM, the image it refreshes away
/// from: the previous frame for a fast refresh, the new frame otherwise.
pub fn red_ram_from_previous(mode: RefreshMode) -> (r: bool)
    ensures
        r == (mode == RefreshMode::Fast),
{
    mode == RefreshMode::Fast
}

/// Whether the panel shows an image, and how many fast refreshes in a row
/// it has had.
#[derive(Clone, Copy, Debug, PartialEq, Eq, Structural)]
pub struct PanelState {
    pub screen_on: bool,
    pub fast_refreshes: u8,
}

/// After a frame was flushed with `mode`: a good flush lights the panel and
/// counts fast refreshes in a row (a full one starts the count again); a
/// failed flush changes nothing.
pub open spec fn after_flush_spec(state: PanelState, mode: RefreshMode, ok: bool) -> PanelState {
    if ok {
        PanelState {
            screen_on: true,
            fast_refreshes: if mode == RefreshMode::Fast {
                if state.fast_refreshes < 255 {
                    (state.fast_refreshes + 1) as u8
                } else {
                    255
                }
            } else {
                0
            },
        }
    } else {
        state
    }
}

pub fn after_flush(state: PanelState, mode: RefreshMode, ok: bool) -> (r: PanelState)
    ensures
        r == after_flush_spec(state, mode, ok),
{
    if ok {
        let fast_refreshes = if mode == RefreshMode::Fast {
            state.fast_refreshes.saturating_add(1)
        } else {
            0
        };
        PanelState { screen_on: true, fast_refreshes }
    } else {
        state
    }
}

/// After a sleep command: when it went through the panel is dark and the
/// fast-refresh count starts again; when it failed nothing changes.
pub open spec fn after_sleep_spec(state: PanelState, ok: bool) -> PanelState {
    if ok {
        PanelState { screen_on: false, fast_refreshes: 0 }
    } else {
        state
    }
}

pub fn after_sleep(state: PanelState, ok: bool) -> (r: PanelState)
    ensures
        r == after_sleep_spec(state, ok),
{
    if ok {
        PanelState { screen_on: false, fast_refreshes: 0 }
    } else {
        state
    }
}

/// The first frame after the panel slept is always a full refresh, and
/// every frame on a lit panel is a fast one; a sleep command that failed
/// leaves the panel as it was, so the next frame refreshes as it would have.
pub proof fn wake_refresh_is_full(state: PanelState, mode: RefreshMode, ok: bool)
    ensures
        refresh_mode_spec(after_sleep_spec(state, true).screen_on, after_sleep_spec(state, true).fast_refreshes)
            == RefreshMode::Full,
        after_sleep_spec(state, false) == state,
        ok ==> refresh_mode_spec(
            after_flush_spec(state, mode, ok).screen_on,
            after_flush_spec(state, mode, ok).fast_refreshes,
        ) == RefreshMode::Fast,
{
}

#[derive(Clone, Copy, Debug, PartialEq, Eq, Structural)]
pub enum SdStatus {
    NotScanned,
    Scanning,
    Ready,
    Empty,
    Error,
}

/// The EPUB files found on the card, by path.
pub struct SdLibrary {
    pub status: SdStatus,
    pub names: Vec<heapless::String<64>>,
    pub count: usize,
}

impl SdLibrary {
    pub open spec fn wf(&self) -> bool {
        self.names@.len() == MAX_SD_BOOKS && self.count <= MAX_SD_BOOKS
    }

    /// The paths found, in order.
    pub open spec fn paths(&self) -> Seq<Seq<char>> {
        Seq::new(self.count as nat, |i: int| hstr64(self.names@[i]))
    }

    pub fn new() -> (l: Self)
        ensures
            l.wf(),
            l.status == SdStatus::NotScanned,
            l.count == 0,
            forall|i: int| 0 <= i < l.names@.len() ==> hstr64(#[trigger] l.names@[i])
                == Seq::<char>::empty(),
    {
        let mut names: Vec<heapless::String<64>> = Vec::new();
        while names.len() < MAX_SD_BOOKS
            invariant
                names@.len() <= MAX_SD_BOOKS,
                forall|i: int| 0 <= i < names@.len() ==> hstr64(#[trigger] names@[i])
                    == Seq::<char>::empty(),
            decreases MAX_SD_BOOKS - names@.len(),
        {
            names.push(hstr64_new());
        }
        Self { status: SdStatus::NotScanned, names, count: 0 }
    }

    /// Forgets every path; the status stays.
    pub fn clear(&mut self)
        requires
            old(self).wf(),
        ensures
            final(self).wf(),
            final(self).count == 0,
            final(self).status == old(self).status,
            forall|i: int| 0 <= i < final(self).names@.len() ==> hstr64(
                #[trigger] final(self).names@[i],
            ) == Seq::<char>::empty(),
    {
        self.count = 0;
        let mut i: usize = 0;
        while i < self.names.len()
            invariant
                self.wf(),
                self.count == 0,
                self.status == old(self).status,
                i <= self.names@.len(),
                forall|k: int| 0 <= k < i ==> hstr64(#[trigger] self.names@[k])
                    == Seq::<char>::empty(),
            decreases self.names@.len() - i,
        {
            self.names.set(i, hstr64_new());
            i += 1;
        }
    }

    /// Adds a path (kept when it fits in 64 bytes, else stored empty); a
    /// full list stays as it is.
    pub fn push(&mut self, name: &str)
        requires
            old(self).wf(),
        ensures
            final(self).wf(),
            final(self).status == old(self).status,
            old(self).count >= MAX_SD_BOOKS ==> final(self).count == old(self).count
                && final(self).names == old(self).names,
            old(self).count < MAX_SD_BOOKS ==> {
                &&& final(self).count == old(self).count + 1
                &&& final(self).names@ == old(self).names@.update(
                    old(self).count as int,
                    final(self).names@[old(self).count as int],
                )
                &&& hstr64(final(self).names@[old(self).count as int]) == if utf8_len(name@)
                    <= 64 {
                    name@
                } else {
                    Seq::<char>::empty()
                }
            },
    {
        if self.count >= self.names.len() {
            return;
        }
        let mut slot = hstr64_new();
        let _ = hstr64_push_str(&mut slot, name);
        proof {
            assert(Seq::<char>::empty() + name@ =~= name@);
        }
        let at = self.count;
        self.names.set(at, slot);
        self.count = at + 1;
    }
}

/// The path a directory entry is listed under: the prefix, then the name;
/// either part is dropped when it no longer fits in 64 bytes.
pub open spec fn prefixed_path(prefix: Seq<char>, name: Seq<char>) -> Seq<char> {
    let p = if utf8_len(prefix) <= 64 {
        prefix
    } else {
        Seq::empty()
    };
    if utf8_len(p) + utf8_len(name) <= 64 {
        p + name
    } else {
        p
    }
}

/// Adds `prefix` + `name` to the library.
pub fn push_prefixed(prefix: &str, name: &str, library: &mut SdLibrary)
    requires
        old(library).wf(),
    ensures
        final(library).wf(),
        final(library).status == old(library).status,
        old(library).count >= MAX_SD_BOOKS ==> final(library).count == old(library).count
            && final(library).names == old(library).names,
        old(library).count < MAX_SD_BOOKS ==> {
            &&& final(library).count == old(library).count + 1
            &&& final(library).names@ == old(library).names@.update(
                old(library).count as int,
                final(library).names@[old(library).count as int],
            )
            &&& hstr64(final(library).names@[old(library).count as int]) == prefixed_path(
                prefix@,
                name@,
            )
        },
{
    let mut path = hstr64_new();
    let _ = hstr64_push_str(&mut path, prefix);
    let _ = hstr64_push_str(&mut path, name);
    proof {
        assert(Seq::<char>::empty() + prefix@ =~= prefix@);
        assert(utf8_len(Seq::<char>::empty()) == 0);
    }
    let text = hstr64_as_str(&path);
    proof {
        vstd::utf8::encode_utf8_valid_utf8(text@);
    }
    let ghost before = *library;
    library.push(text);
    proof {
        assert(utf8_len(text@) <= 64) by {
            let p = if utf8_len(prefix@) <= 64 {
                prefix@
            } else {
                Seq::<char>::empty()
            };
            lemma_utf8_len_concat(p, name@);
        }
    }
}

/// The UTF-8 length of two sequences together is the sum of their lengths.
pub proof fn lemma_utf8_len_concat(a: Seq<char>, b: Seq<char>)
    ensures
        utf8_len(a + b) == utf8_len(a) + utf8_len(b),
    decreases a.len(),
{
    if a.len() > 0 {
        lemma_utf8_len_concat(a.drop_first(), b);
        assert((a + b).drop_first() =~= a.drop_first() + b);
    } else {
        assert(a + b =~= b);
    }
}

/// ASCII case-insensitive byte equality.
pub open spec fn ascii_lower(b: u8) -> u8 {
    if 0x41 <= b <= 0x5a {
        (b + 0x20) as u8
    } else {
        b
    }
}

/// A name ending in `.epub`, or in `.epu` (the 8.3 extension uploads are
/// stored under), the extension in any ASCII case.
pub open spec fn is_epub_name_spec(bytes: Seq<u8>) -> bool {
    let n = bytes.len() as int;
    ||| {
        &&& n >= 5
        &&& bytes[n - 5] == 0x2e
        &&& ascii_lower(bytes[n - 4]) == 0x65
        &&& ascii_lower(bytes[n - 3]) == 0x70
        &&& ascii_lower(bytes[n - 2]) == 0x75
        &&& ascii_lower(bytes[n - 1]) == 0x62
    }
    ||| {
        &&& n >= 4
        &&& bytes[n - 4] == 0x2e
        &&& ascii_lower(bytes[n - 3]) == 0x65
        &&& ascii_lower(bytes[n - 2]) == 0x70
        &&& ascii_lower(bytes[n - 1]) == 0x75
    }
}

fn lower(b: u8) -> (r: u8)
    ensures
        r == ascii_lower(b),
{
    if 0x41 <= b && b <= 0x5a {
        b + 0x20
    } else {
        b
    }
}

pub fn is_epub_name(name: &str) -> (r: bool)
    ensures
        r == is_epub_name_spec(name.spec_bytes()),
{
    let bytes = name.as_bytes();
    let n = bytes.len();
    let long_ext = n >= 5 && bytes[n - 5] == 0x2e && lower(bytes[n - 4]) == 0x65 && lower(
        bytes[n - 3],
    ) == 0x70 && lower(bytes[n - 2]) == 0x75 && lower(bytes[n - 1]) == 0x62;
    let short_ext = n >= 4 && bytes[n - 4] == 0x2e && lower(bytes[n - 3]) == 0x65 && lower(
        bytes[n - 2],
    ) == 0x70 && lower(bytes[n - 1]) == 0x75;
    long_ext || short_ext
}

/// Whether a directory entry belongs in the library: a file (not a
/// directory or volume label) whose name ends in `.epub` or `.epu`.
pub fn should_collect(is_directory: bool, is_volume: bool, name: &str) -> (r: bool)
    ensures
        r == (!is_directory && !is_volume && is_epub_name_spec(name.spec_bytes())),
{
    !is_directory && !is_volume && is_epub_name(name)
}

/// The status a finished scan leaves: `Ready` with books, `Empty` without.
pub fn scan_status(count: usize) -> (s: SdStatus)
    ensures
        s == if count == 0 {
            SdStatus::Empty
        } else {
            SdStatus::Ready
        },
{
    if count == 0 {
        SdStatus::Empty
    } else {
        SdStatus::Ready
    }
}

/// The card is scanned the first time the library view is drawn.
pub fn needs_scan(view: AppView, status: SdStatus) -> (r: bool)
    ensures
        r == (view == AppView::Library && status == SdStatus::NotScanned),
{
    view == AppView::Library && status == SdStatus::NotScanned
}

/// Bars of the battery gauge: none up to 10%, one to 35%, two to 60%,
/// three to 85%, four above.
pub open spec fn battery_bars_spec(percent: u8) -> u8 {
    if percent <= 10 {
        0
    } else if percent <= 35 {
        1
    } else if percent <= 60 {
        2
    } else if percent <= 85 {
        3
    } else {
        4
    }
}

pub fn battery_bars(percent: u8) -> (b: u8)
    ensures
        b == battery_bars_spec(percent),
{
    if percent <= 10 {
        0
    } else if percent <= 35 {
        1
    } else if percent <= 60 {
        2
    } else if percent <= 85 {
        3
    } else {
        4
    }
}

/// More charge never shows fewer bars, and there are at most four.
pub proof fn battery_bars_monotone(a: u8, b: u8)
    ensures
        a <= b ==> battery_bars_spec(a) <= battery_bars_spec(b),
        battery_bars_spec(a) <= 4,
{
}

/// The x at which 8-pixel-wide text starts to sit centered in `width`
/// (0 when it is wider).
pub open spec fn centered_x_spec(width: int, text_len: int) -> int {
    if width >= text_len * 8 {
        (width - text_len * 8) / 2
    } else {
        0
    }
}

pub fn centered_x_for(width: usize, text: &str) -> (x: usize)
    requires
        text.spec_bytes().len() * 8 <= usize::MAX,
    ensures
        x == centered_x_spec(width as int, text.spec_bytes().len() as int),
{
    let used = text.len() * 8;
    if width >= used {
        (width - used) / 2
    } else {
        0
    }
}

/// How many pixels of the inner bar of a `w`-wide progress bar are filled:
/// `permille` (capped at 1000) of the width inside a 2-pixel border.
pub open spec fn progress_fill_width(w: u16, permille: u16) -> int {
    let inner_w = if w >= 4 {
        w - 4
    } else {
        0
    };
    let p = if permille <= 1000 {
        permille
    } else {
        1000
    };
    inner_w * p / 1000
}

/// The top row of the inner bar of a progress bar drawn in `rect`.
pub open spec fn progress_fill_top(rect: Rect) -> int {
    if rect.h > 4 {
        rect.y + 2
    } else {
        rect.y + 1
    }
}

/// The inner bar of a progress bar drawn in `rect`: `permille` (capped at
/// 1000) of the width inside a 2-pixel border, 2 pixels in from the top
/// (1 when the bar is 4 pixels or less high), `None` when it would be empty.
pub open spec fn progress_fill_spec(rect: Rect, permille: u16) -> Option<Rect> {
    let fill_w = progress_fill_width(rect.w, permille) as u16;
    let inner_h = if rect.h >= 4 {
        rect.h - 4
    } else {
        0
    };
    let fill_h = if inner_h >= 1 {
        inner_h
    } else {
        1
    };
    if fill_w > 0 {
        Some(
            Rect {
                x: (rect.x + 2) as u16,
                y: progress_fill_top(rect) as u16,
                w: fill_w,
                h: fill_h as u16,
            },
        )
    } else {
        None
    }
}

pub fn progress_fill(rect: Rect, permille: u16) -> (r: Option<Rect>)
    requires
        progress_fill_width(rect.w, permille) > 0 ==> rect.x + 2 <= u16::MAX
            && progress_fill_top(rect) <= u16::MAX,
    ensures
        r == progress_fill_spec(rect, permille),
        r matches Some(f) ==> f.w <= rect.w && f.x + f.w <= rect.x + rect.w,
{
    let inner_w = rect.w.saturating_sub(4);
    let p = if permille <= 1000 {
        permille
    } else {
        1000
    };
    assert(inner_w as u32 * p as u32 <= 0xffff * 1000) by (nonlinear_arith)
        requires
            inner_w <= 0xffff,
            p <= 1000,
    ;
    let fill_w = ((inner_w as u32 * p as u32) / 1000) as u16;
    assert(fill_w <= inner_w) by (nonlinear_arith)
        requires
            fill_w == (inner_w as u32 * p as u32) / 1000,
            p <= 1000,
    ;
    if fill_w > 0 {
        let inner_h = rect.h.saturating_sub(4);
        let fill_h = if inner_h >= 1 {
            inner_h
        } else {
            1
        };
        let fill_y = if rect.h > 4 {
            rect.y + 2
        } else {
            rect.y + 1
        };
        Some(Rect { x: rect.x + 2, y: fill_y, w: fill_w, h: fill_h })
    } else {
        None
    }
}

/// The guide's reading progress: chapter over the last chapter index, in permille.
pub open spec fn book_progress_permille_spec(chapter: u16, chapters: u8) -> u16 {
    let c = if chapters >= 1 {
        chapters as int
    } else {
        1
    };
    let denom = if c - 1 >= 1 {
        c - 1
    } else {
        1
    };
    ((chapter as int * 1000) / denom) as u16
}

pub fn book_progress_permille(chapter: u16) -> (p: u16)
    ensures
        p == book_progress_permille_spec(chapter, crate::catalog::catalog_chapters().len() as u8),
{
    let chapters = crate::catalog::chapter_count();
    let chapters = if chapters >= 1 {
        chapters as u32
    } else {
        1
    };
    let denom = chapters.saturating_sub(1);
    let denom = if denom >= 1 {
        denom
    } else {
        1
    };
    ((chapter as u32 * 1000) / denom) as u16
}

/// Where a pixel of the UI, laid out for the given way of holding the
/// reader, lands on the 800x480 panel; `None` off the screen.
pub open spec fn map_ui_pixel_spec(orientation: DisplayOrientation, x: int, y: int) -> Option<
    (int, int),
> {
    match orientation {
        DisplayOrientation::LandscapeButtonsBottom => if x < WIDTH && y < HEIGHT {
            Some((x, y))
        } else {
            None
        },
        DisplayOrientation::LandscapeButtonsTop => if x < WIDTH && y < HEIGHT {
            Some((WIDTH - 1 - x, HEIGHT - 1 - y))
        } else {
            None
        },
        DisplayOrientation::PortraitButtonsRight => if x < HEIGHT && y < WIDTH {
            Some((WIDTH - 1 - y, x))
        } else {
            None
        },
        DisplayOrientation::PortraitButtonsLeft => if x < HEIGHT && y < WIDTH {
            Some((y, HEIGHT - 1 - x))
        } else {
            None
        },
    }
}

pub fn map_ui_pixel(orientation: DisplayOrientation, x: usize, y: usize) -> (r: Option<
    (usize, usize),
>)
    ensures
        match r {
            Some((fx, fy)) => map_ui_pixel_spec(orientation, x as int, y as int) == Some(
                (fx as int, fy as int),
            ),
            None => map_ui_pixel_spec(orientation, x as int, y as int) is None,
        },
{
    match orientation {
        DisplayOrientation::LandscapeButtonsBottom => {
            if x < WIDTH && y < HEIGHT {
                Some((x, y))
            } else {
                None
            }
        },
        DisplayOrientation::LandscapeButtonsTop => {
            if x < WIDTH && y < HEIGHT {
                Some((WIDTH - 1 - x, HEIGHT - 1 - y))
            } else {
                None
            }
        },
        DisplayOrientation::PortraitButtonsRight => {
            if x < HEIGHT && y < WIDTH {
                Some((WIDTH - 1 - y, x))
            } else {
                None
            }
        },
        DisplayOrientation::PortraitButtonsLeft => {
            if x < HEIGHT && y < WIDTH {
                Some((y, HEIGHT - 1 - x))
            } else {
                None
            }
        },
    }
}

/// Every orientation puts each on-screen UI pixel on its own panel pixel,
/// inside the panel.
pub proof fn ui_pixels_land_on_the_panel(
    orientation: DisplayOrientation,
    x1: int,
    y1: int,
    x2: int,
    y2: int,
)
    requires
        0 <= x1,
        0 <= y1,
        0 <= x2,
        0 <= y2,
    ensures
        map_ui_pixel_spec(orientation, x1, y1) matches Some((fx, fy)) ==> 0 <= fx < WIDTH && 0
            <= fy < HEIGHT,
        map_ui_pixel_spec(orientation, x1, y1) is Some && map_ui_pixel_spec(orientation, x1, y1)
            == map_ui_pixel_spec(orientation, x2, y2) ==> x1 == x2 && y1 == y2,
{
}

pub fn view_label(view: AppView) -> (s: &'static str)
    ensures
        s@ == match view {
            AppView::Home => "HOME"@,
            AppView::Library => "LIBRARY"@,
            AppView::Reading => "READING"@,
            AppView::Chapters => "CHAPTERS"@,
            AppView::Sync => "SYNC"@,
            AppView::Settings => "SETTINGS"@,
        },
{
    match view {
        AppView::Home => "HOME",
        AppView::Library => "LIBRARY",
        AppView::Reading => "READING",
        AppView::Chapters => "CHAPTERS",
        AppView::Sync => "SYNC",
        AppView::Settings => "SETTINGS",
    }
}

pub fn orientation_label(orientation: DisplayOrientation) -> (s: &'static str)
    ensures
        s@ == match orientation {
            DisplayOrientation::LandscapeButtonsBottom => "LANDSCAPE BOTTOM"@,
            DisplayOrientation::LandscapeButtonsTop => "LANDSCAPE TOP"@,
            DisplayOrientation::PortraitButtonsLeft => "PORTRAIT LEFT"@,
            DisplayOrientation::PortraitButtonsRight => "PORTRAIT RIGHT"@,
        },
{
    match orientation {
        DisplayOrientation::LandscapeButtonsBottom => "LANDSCAPE BOTTOM",
        DisplayOrientation::LandscapeButtonsTop => "LANDSCAPE TOP",
        DisplayOrientation::PortraitButtonsLeft => "PORTRAIT LEFT",
        DisplayOrientation::PortraitButtonsRight => "PORTRAIT RIGHT",
    }
}

pub fn refresh_policy_label(policy: RefreshPolicy) -> (s: &'static str)
    ensures
        s@ == match policy {
            RefreshPolicy::FastOnly => "FAST ONLY"@,
            RefreshPolicy::FullOnWake => "FULL ON WAKE"@,
            RefreshPolicy::FullEveryTen => "FULL EVERY 10"@,
        },
{
    match policy {
        RefreshPolicy::FastOnly => "FAST ONLY",
        RefreshPolicy::FullOnWake => "FULL ON WAKE",
        RefreshPolicy::FullEveryTen => "FULL EVERY 10",
    }
}

/// The label of the last button pressed, `NONE` before any.
pub fn button_label(button: Option<Button>) -> (s: &'static str)
    ensures
        s@ == match button {
            Some(Button::Power) => "POWER"@,
            Some(Button::Back) => "BACK"@,
            Some(Button::Confirm) => "OK"@,
            Some(Button::Previous) => "PREV"@,
            Some(Button::Next) => "NEXT"@,
            None => "NONE"@,
        },
{
    match button {
        Some(Button::Power) => "POWER",
        Some(Button::Back) => "BACK",
        Some(Button::Confirm) => "OK",
        Some(Button::Previous) => "PREV",
        Some(Button::Next) => "NEXT",
        None => "NONE",
    }
}

/// The views the portrait shell draws.
pub fn is_shell_view(view: AppView) -> (r: bool)
    ensures
        r == (view == AppView::Home || view == AppView::Library || view == AppView::Sync || view
            == AppView::Settings),
{
    match view {
        AppView::Home | AppView::Library | AppView::Sync | AppView::Settings => true,
        _ => false,
    }
}

/// The end of the word that starts at `start`: the first space from there,
/// or the end of the text.
pub fn next_word_end(bytes: &[u8], start: usize) -> (end: usize)
    requires
        start <= bytes@.len(),
    ensures
        start <= end <= bytes@.len(),
        forall|i: int| start <= i < end ==> bytes@[i] != 0x20,
        end == bytes@.len() || bytes@[end as int] == 0x20,
{
    let mut end = start;
    while end < bytes.len() && bytes[end] != 0x20
        invariant
            start <= end <= bytes@.len(),
            forall|i: int| start <= i < end ==> bytes@[i] != 0x20,
        decreases bytes@.len() - end,
    {
        end += 1;
    }
    end
}

} // verus!
