//! Navigation input: resistor-ladder decoding, edge detection, and the
//! messages each button press sends.
use vstd::prelude::*;
use crate::geometry::Rect;

verus! {

/// User-facing navigation events decoded from the resistor-ladder buttons.
#[derive(Clone, Copy, Debug, PartialEq, Eq, Structural)]
pub enum NavEvent {
    Home,
    Back,
    Confirm,
    Left,
    Right,
    Up,
    Down,
}

/// What the display is asked to redraw.
#[derive(Clone, Copy, Debug, PartialEq, Eq, Structural)]
pub enum UiCommand {
    RefreshFull,
    RefreshPartial { rect: Rect },
    UpdateProgressBar { percent: u8 },
}

/// Where the reader is asked to turn.
#[derive(Clone, Copy, Debug, PartialEq, Eq, Structural)]
pub enum PageRequest {
    NextPage,
    PrevPage,
    GoToChapter { num: u32 },
}

/// Events for the power task.
#[derive(Clone, Copy, Debug, PartialEq, Eq, Structural)]
pub enum PowerEvent {
    PageRendered,
    WifiSyncRequired,
    GoToSleep,
    WakeUp,
}

/// One entry of an ADC resistor-ladder lookup table: `[min, max]` raw ADC
/// reading inclusive that maps to this event.
#[derive(Clone, Copy)]
pub struct LadderBand {
    pub min: u16,
    pub max: u16,
    pub event: NavEvent,
}

pub fn band(min: u16, max: u16, event: NavEvent) -> (b: LadderBand)
    ensures
        b == (LadderBand { min, max, event }),
{
    LadderBand { min, max, event }
}

/// The GPIO1 ladder: Back, Confirm, Left, Right; 3300..4095 is the idle rail.
pub open spec fn nav_ladder_spec() -> Seq<LadderBand> {
    seq![
        LadderBand { min: 60, max: 500, event: NavEvent::Back },
        LadderBand { min: 700, max: 1200, event: NavEvent::Confirm },
        LadderBand { min: 1400, max: 2000, event: NavEvent::Left },
        LadderBand { min: 2200, max: 2900, event: NavEvent::Right },
    ]
}

/// The GPIO2 ladder: Up, Down; 3000..4095 is the idle rail.
pub open spec fn page_ladder_spec() -> Seq<LadderBand> {
    seq![
        LadderBand { min: 60, max: 700, event: NavEvent::Up },
        LadderBand { min: 1200, max: 2400, event: NavEvent::Down },
    ]
}

pub fn nav_ladder() -> (t: Vec<LadderBand>)
    ensures
        t@ == nav_ladder_spec(),
{
    let t = vec![
        band(60, 500, NavEvent::Back),
        band(700, 1200, NavEvent::Confirm),
        band(1400, 2000, NavEvent::Left),
        band(2200, 2900, NavEvent::Right),
    ];
    assert(t@ =~= nav_ladder_spec());
    t
}

pub fn page_ladder() -> (t: Vec<LadderBand>)
    ensures
        t@ == page_ladder_spec(),
{
    let t = vec![band(60, 700, NavEvent::Up), band(1200, 2400, NavEvent::Down)];
    assert(t@ =~= page_ladder_spec());
    t
}

/// Whether `reading` lies in the band, ends included.
pub open spec fn in_band(reading: u16, b: LadderBand) -> bool {
    b.min <= reading <= b.max
}

/// The event of the first band of `table` that holds `reading`, if any.
pub open spec fn classify_spec(reading: u16, table: Seq<LadderBand>) -> Option<NavEvent>
    decreases table.len(),
{
    if table.len() == 0 {
        None
    } else if in_band(reading, table[0]) {
        Some(table[0].event)
    } else {
        classify_spec(reading, table.drop_first())
    }
}

/// Bands that share no reading.
pub open spec fn bands_disjoint(table: Seq<LadderBand>) -> bool {
    forall|i: int, j: int|
        0 <= i < j < table.len() ==> (#[trigger] table[i]).max < (#[trigger] table[j]).min
}

pub fn classify(reading: u16, table: &[LadderBand]) -> (r: Option<NavEvent>)
    ensures
        r == classify_spec(reading, table@),
{
    let mut i: usize = 0;
    assert(table@.skip(0) == table@);
    while i < table.len()
        invariant
            i <= table@.len(),
            classify_spec(reading, table@) == classify_spec(reading, table@.skip(i as int)),
        decreases table@.len() - i,
    {
        let b = table[i];
        assert(table@.skip(i as int).drop_first() == table@.skip(i + 1));
        if reading >= b.min && reading <= b.max {
            return Some(b.event);
        }
        i += 1;
    }
    None
}

/// With bands in rising, non-overlapping order, a reading classifies as the
/// event of the one band that holds it, and as nothing outside every band.
pub proof fn classify_finds_the_band(reading: u16, table: Seq<LadderBand>)
    requires
        bands_disjoint(table),
    ensures
        forall|k: int|
            0 <= k < table.len() && in_band(reading, #[trigger] table[k]) ==> classify_spec(
                reading,
                table,
            ) == Some(table[k].event),
        (forall|k: int| 0 <= k < table.len() ==> !in_band(reading, #[trigger] table[k]))
            ==> classify_spec(reading, table) is None,
    decreases table.len(),
{
    if table.len() > 0 {
        let rest = table.drop_first();
        assert forall|i: int, j: int| 0 <= i < j < rest.len() implies (#[trigger] rest[i]).max
            < (#[trigger] rest[j]).min by {
            assert(rest[i] == table[i + 1]);
            assert(rest[j] == table[j + 1]);
        }
        classify_finds_the_band(reading, rest);
        assert forall|k: int|
            0 <= k < table.len() && in_band(reading, #[trigger] table[k]) implies classify_spec(
            reading,
            table,
        ) == Some(table[k].event) by {
            if k > 0 {
                assert(table[0].max < table[k].min);
                assert(rest[k - 1] == table[k]);
            }
        }
        if forall|k: int| 0 <= k < table.len() ==> !in_band(reading, #[trigger] table[k]) {
            assert forall|k: int| 0 <= k < rest.len() implies !in_band(reading, #[trigger] rest[k]) by {
                assert(rest[k] == table[k + 1]);
            }
            assert(!in_band(reading, table[0]));
        }
    }
}

/// Both ladders hold non-overlapping bands.
pub proof fn ladders_are_disjoint()
    ensures
        bands_disjoint(nav_ladder_spec()),
        bands_disjoint(page_ladder_spec()),
{
}

/// The messages a decoded button press sends.
#[derive(Clone, Copy, Debug, PartialEq, Eq, Structural)]
pub struct Dispatch {
    pub page: Option<PageRequest>,
    pub ui: Option<UiCommand>,
}

/// "Up" and "Left" turn back, "Down", "Right" and "Home" turn forward, each
/// with a full refresh; "Confirm" only refreshes; "Back" sends nothing.
pub open spec fn dispatch_spec(event: NavEvent) -> Dispatch {
    match event {
        NavEvent::Up | NavEvent::Left => Dispatch {
            page: Some(PageRequest::PrevPage),
            ui: Some(UiCommand::RefreshFull),
        },
        NavEvent::Down | NavEvent::Right | NavEvent::Home => Dispatch {
            page: Some(PageRequest::NextPage),
            ui: Some(UiCommand::RefreshFull),
        },
        NavEvent::Confirm => Dispatch { page: None, ui: Some(UiCommand::RefreshFull) },
        NavEvent::Back => Dispatch { page: None, ui: None },
    }
}

/// Maps a decoded nav event to the outgoing channel messages, page request
/// first; the input task sends each one that is present.
pub fn dispatch(event: NavEvent) -> (d: Dispatch)
    ensures
        d == dispatch_spec(event),
{
    match event {
        NavEvent::Up | NavEvent::Left => Dispatch {
            page: Some(PageRequest::PrevPage),
            ui: Some(UiCommand::RefreshFull),
        },
        NavEvent::Down | NavEvent::Right | NavEvent::Home => Dispatch {
            page: Some(PageRequest::NextPage),
            ui: Some(UiCommand::RefreshFull),
        },
        NavEvent::Confirm => Dispatch { page: None, ui: Some(UiCommand::RefreshFull) },
        NavEvent::Back => Dispatch { page: None, ui: None },
    }
}

/// Which way each button turns the page: Up and Left request the previous
/// page, Down, Right and Home the next one, Confirm and Back none; every
/// button but Back asks for a full refresh.
pub proof fn buttons_turn_the_right_way(event: NavEvent)
    ensures
        (dispatch_spec(event).page == Some(PageRequest::PrevPage)) <==> (event == NavEvent::Up
            || event == NavEvent::Left),
        (dispatch_spec(event).page == Some(PageRequest::NextPage)) <==> (event == NavEvent::Down
            || event == NavEvent::Right || event == NavEvent::Home),
        (dispatch_spec(event).page is None) <==> (event == NavEvent::Confirm || event
            == NavEvent::Back),
        (dispatch_spec(event).ui == Some(UiCommand::RefreshFull)) <==> (event != NavEvent::Back),
        dispatch_spec(event).ui is None <==> event == NavEvent::Back,
{
}

/// Edge detection for one ladder: a press fires when the decoded event
/// differs from the last one and is not idle; the decoded event becomes the
/// last one. The result is (event to dispatch, new last event).
pub open spec fn ladder_edge_spec(last: Option<NavEvent>, now: Option<NavEvent>) -> (
    Option<NavEvent>,
    Option<NavEvent>,
) {
    if now != last {
        (now, now)
    } else {
        (None, last)
    }
}

pub fn ladder_edge(last: Option<NavEvent>, now: Option<NavEvent>) -> (r: (
    Option<NavEvent>,
    Option<NavEvent>,
))
    ensures
        r == ladder_edge_spec(last, now),
{
    if now != last {
        (now, now)
    } else {
        (None, last)
    }
}

/// Holding a button does not retrigger: after any poll, a second poll that
/// decodes the same event dispatches nothing, and a new press after a
/// release always fires.
pub proof fn holding_does_not_retrigger(last: Option<NavEvent>, now: Option<NavEvent>)
    ensures
        ladder_edge_spec(ladder_edge_spec(last, now).1, now).0 is None,
        now is Some && last != now ==> ladder_edge_spec(last, now).0 == now,
{
}

/// Milliseconds between ladder polls.
pub const POLL_INTERVAL_MS: u64 = 40;

/// One ADC poll of both ladders: each reading is classified against its
/// ladder and edge-detected against the last event of that ladder. The
/// result is (nav event to dispatch, page event to dispatch, new last nav
/// event, new last page event).
pub open spec fn poll_ladders_spec(
    last_nav: Option<NavEvent>,
    last_page: Option<NavEvent>,
    nav_raw: u16,
    page_raw: u16,
) -> (Option<NavEvent>, Option<NavEvent>, Option<NavEvent>, Option<NavEvent>) {
    let nav = ladder_edge_spec(last_nav, classify_spec(nav_raw, nav_ladder_spec()));
    let page = ladder_edge_spec(last_page, classify_spec(page_raw, page_ladder_spec()));
    (nav.0, page.0, nav.1, page.1)
}

pub fn poll_ladders(
    last_nav: Option<NavEvent>,
    last_page: Option<NavEvent>,
    nav_raw: u16,
    page_raw: u16,
) -> (r: (Option<NavEvent>, Option<NavEvent>, Option<NavEvent>, Option<NavEvent>))
    ensures
        r == poll_ladders_spec(last_nav, last_page, nav_raw, page_raw),
{
    let nav_table = nav_ladder();
    let page_table = page_ladder();
    let nav_evt = classify(nav_raw, nav_table.as_slice());
    let page_evt = classify(page_raw, page_table.as_slice());
    let (nav_fire, nav_last) = ladder_edge(last_nav, nav_evt);
    let (page_fire, page_last) = ladder_edge(last_page, page_evt);
    (nav_fire, page_fire, nav_last, page_last)
}

} // verus!
