use xteink_x4_os::app_render::{
    button_label as app_button_label, draws_builtin_reading, sleep_progress_permille, ui_orientation,
    ui_refresh_policy, ui_view, UiOrientation, UiRefreshPolicy, UiView,
};
use xteink_x4_os::app_types::{AppView, Button, DisplayOrientation, RefreshPolicy};
use xteink_x4_os::catalog::{
    active_book, book_at, book_count, chapter_at, chapter_count, line_layout, reader_page,
    reader_page_count, reader_page_index, ReaderLine, ReaderLineStyle,
};
use xteink_x4_os::epd::{init_sequence, SpiOp};
use xteink_x4_os::geometry::Rect;
use xteink_x4_os::input::{
    band, classify, dispatch, ladder_edge, nav_ladder, page_ladder, poll_ladders, Dispatch,
    NavEvent, PageRequest, UiCommand,
};
use xteink_x4_os::power::{idle_window_expired, power_step, PowerAction, PowerEvent, PowerState};
use xteink_x4_os::shell::{
    after_flush, after_sleep, battery_bars, book_progress_permille, button_label, centered_x_for,
    is_epub_name, is_shell_view, map_ui_pixel, needs_scan, next_word_end, orientation_label,
    progress_fill, push_prefixed, red_ram_from_previous, refresh_mode, refresh_policy_label, scan_status, should_collect,
    view_label, PanelState, RefreshMode, SdLibrary, SdStatus,
};
use xteink_x4_os::text::FontStyle;
use xteink_x4_os::upload::sanitized_name;

#[test]
fn catalog_has_the_guide() {
    assert_eq!(active_book(1).title, "About This Reader");
    assert_eq!(active_book(42).title, "About This Reader");
    assert_eq!(active_book(1).source_path, "/built-in/guide");
    assert_eq!(book_count(), 1);
    assert!(book_at(0).is_some());
    assert!(book_at(1).is_none());
    assert_eq!(chapter_count(), 4);
    assert_eq!(chapter_at(2).unwrap().title, "Wi-Fi Setup");
    assert_eq!(chapter_at(3).unwrap().source_href, "guide/progress-sync.xhtml");
    assert!(chapter_at(4).is_none());
}

#[test]
fn guide_pages() {
    assert_eq!(reader_page_count(), 4);
    let page = reader_page(1);
    assert_eq!(page.len(), 4);
    assert_eq!(page[0].text, "Adding Books");
    assert_eq!(page[0].style, ReaderLineStyle::Heading);
    assert_eq!(page[3].gap_after, 0);
    assert_eq!(reader_page_index(5), 1);
    assert_eq!(reader_page_index(3), 3);
    assert_eq!(line_layout(ReaderLineStyle::Quote), (FontStyle::Italic, 46, 28));
    assert_eq!(line_layout(ReaderLineStyle::Heading), (FontStyle::Bold, 18, 34));
    let line = ReaderLine::new("x", ReaderLineStyle::Bold, 3);
    assert_eq!(line.text, "x");
    assert_eq!(line.gap_after, 3);
}

#[test]
fn init_sequence_starts_with_reset() {
    let ops = init_sequence();
    assert_eq!(ops.len(), 12);
    assert_eq!(ops[0], SpiOp::Reset);
    assert_eq!(ops[2], SpiOp::DelayMs(10));
    assert_eq!(ops[8], SpiOp::Cmd { cmd: 0x44, data: &[0x00, 0x63] });
    assert_eq!(ops[11], SpiOp::Cmd { cmd: 0x20, data: &[] });
}

#[test]
fn ladders_classify_readings() {
    let nav = nav_ladder();
    let page = page_ladder();
    assert_eq!(classify(60, &nav), Some(NavEvent::Back));
    assert_eq!(classify(500, &nav), Some(NavEvent::Back));
    assert_eq!(classify(501, &nav), None);
    assert_eq!(classify(1000, &nav), Some(NavEvent::Confirm));
    assert_eq!(classify(1500, &nav), Some(NavEvent::Left));
    assert_eq!(classify(2900, &nav), Some(NavEvent::Right));
    assert_eq!(classify(4095, &nav), None);
    assert_eq!(classify(0, &nav), None);
    assert_eq!(classify(700, &page), Some(NavEvent::Up));
    assert_eq!(classify(2000, &page), Some(NavEvent::Down));
    assert_eq!(classify(3000, &page), None);
    let custom = [band(0, 10, NavEvent::Home), band(5, 20, NavEvent::Back)];
    assert_eq!(classify(7, &custom), Some(NavEvent::Home));
}

#[test]
fn presses_dispatch_messages() {
    assert_eq!(
        dispatch(NavEvent::Up),
        Dispatch { page: Some(PageRequest::PrevPage), ui: Some(UiCommand::RefreshFull) }
    );
    assert_eq!(
        dispatch(NavEvent::Home),
        Dispatch { page: Some(PageRequest::NextPage), ui: Some(UiCommand::RefreshFull) }
    );
    assert_eq!(dispatch(NavEvent::Confirm), Dispatch { page: None, ui: Some(UiCommand::RefreshFull) });
    assert_eq!(dispatch(NavEvent::Back), Dispatch { page: None, ui: None });
}

#[test]
fn holding_a_button_fires_once() {
    let (fire, last) = ladder_edge(None, Some(NavEvent::Left));
    assert_eq!(fire, Some(NavEvent::Left));
    let (fire, last) = ladder_edge(last, Some(NavEvent::Left));
    assert_eq!(fire, None);
    let (fire, last) = ladder_edge(last, None);
    assert_eq!(fire, None);
    assert_eq!(last, None);
    let (nav, pg, last_nav, last_page) = poll_ladders(None, None, 300, 2000);
    assert_eq!((nav, pg), (Some(NavEvent::Back), Some(NavEvent::Down)));
    let again = poll_ladders(last_nav, last_page, 310, 1990);
    assert_eq!((again.0, again.1), (None, None));
}

#[test]
fn refresh_policy_and_panel_state() {
    assert_eq!(refresh_mode(false, 0), RefreshMode::Full);
    assert_eq!(refresh_mode(true, 200), RefreshMode::Fast);
    let lit = after_flush(PanelState { screen_on: false, fast_refreshes: 0 }, RefreshMode::Full, true);
    assert_eq!(lit, PanelState { screen_on: true, fast_refreshes: 0 });
    let fast = after_flush(lit, RefreshMode::Fast, true);
    assert_eq!(fast.fast_refreshes, 1);
    let capped = after_flush(PanelState { screen_on: true, fast_refreshes: 255 }, RefreshMode::Fast, true);
    assert_eq!(capped.fast_refreshes, 255);
    assert_eq!(after_flush(fast, RefreshMode::Fast, false), fast);
    let lit = PanelState { screen_on: true, fast_refreshes: 3 };
    assert_eq!(after_sleep(lit, true), PanelState { screen_on: false, fast_refreshes: 0 });
    assert_eq!(after_sleep(lit, false), lit);
    assert_eq!(refresh_mode(after_sleep(lit, false).screen_on, 3), RefreshMode::Fast);
}

#[test]
fn library_listing() {
    let mut lib = SdLibrary::new();
    assert_eq!(lib.status, SdStatus::NotScanned);
    push_prefixed("/books/", "dune.epub", &mut lib);
    assert_eq!(lib.names[0].as_str(), "/books/dune.epub");
    let long = "n".repeat(60);
    push_prefixed("/books/", &long, &mut lib);
    assert_eq!(lib.names[1].as_str(), "/books/");
    lib.push("x");
    assert_eq!(lib.count, 3);
    for _ in 0..10 {
        lib.push("y");
    }
    assert_eq!(lib.count, 8);
    lib.clear();
    assert_eq!(lib.count, 0);
    assert_eq!(lib.names[0].as_str(), "");
    assert_eq!(scan_status(0), SdStatus::Empty);
    assert_eq!(scan_status(2), SdStatus::Ready);
    assert!(needs_scan(AppView::Library, SdStatus::NotScanned));
    assert!(!needs_scan(AppView::Library, SdStatus::Ready));
    assert!(!needs_scan(AppView::Home, SdStatus::NotScanned));
}

#[test]
fn epub_names() {
    assert!(is_epub_name("a.epub"));
    assert!(is_epub_name("BOOK.EPUB"));
    assert!(is_epub_name("x.ePuB"));
    assert!(is_epub_name(".epu"));
    assert!(is_epub_name("a.epu"));
    assert!(is_epub_name("BOOK.EPU"));
    assert!(is_epub_name("Dune.EPUB"));
    assert!(is_epub_name(&sanitized_name("My Book.epub")));
    assert!(!is_epub_name("epub"));
    assert!(!is_epub_name("a.ep"));
    assert!(!is_epub_name("a_epu"));
    assert!(!is_epub_name("a_epub"));
    assert!(should_collect(false, false, "a.epub"));
    assert!(!should_collect(true, false, "a.epub"));
    assert!(!should_collect(false, true, "a.epub"));
}

#[test]
fn gauges_and_geometry() {
    assert_eq!(battery_bars(0), 0);
    assert_eq!(battery_bars(10), 0);
    assert_eq!(battery_bars(11), 1);
    assert_eq!(battery_bars(60), 2);
    assert_eq!(battery_bars(85), 3);
    assert_eq!(battery_bars(100), 4);
    assert_eq!(centered_x_for(480, "SYNC"), 224);
    assert_eq!(centered_x_for(16, "TOO LONG"), 0);
    assert_eq!(progress_fill(Rect::new(142, 238, 196, 6), 420), Some(Rect::new(144, 240, 80, 2)));
    assert_eq!(progress_fill(Rect::new(16, 448, 768, 3), 1000), Some(Rect::new(18, 449, 764, 1)));
    assert_eq!(progress_fill(Rect::new(0, 0, 3, 3), 1000), None);
    assert_eq!(progress_fill(Rect::new(0, 0, 100, 10), 0), None);
    assert_eq!(progress_fill(Rect::new(0, 0, 104, 10), 5000), Some(Rect::new(2, 2, 100, 6)));
    assert_eq!(book_progress_permille(0), 0);
    assert_eq!(book_progress_permille(3), 1000);
    assert_eq!(book_progress_permille(1), 333);
}

#[test]
fn ui_pixels_map_onto_the_panel() {
    assert_eq!(map_ui_pixel(DisplayOrientation::LandscapeButtonsBottom, 10, 20), Some((10, 20)));
    assert_eq!(map_ui_pixel(DisplayOrientation::LandscapeButtonsTop, 0, 0), Some((799, 479)));
    assert_eq!(map_ui_pixel(DisplayOrientation::PortraitButtonsRight, 5, 7), Some((792, 5)));
    assert_eq!(map_ui_pixel(DisplayOrientation::PortraitButtonsLeft, 5, 7), Some((7, 474)));
    assert_eq!(map_ui_pixel(DisplayOrientation::PortraitButtonsLeft, 480, 0), None);
    assert_eq!(map_ui_pixel(DisplayOrientation::LandscapeButtonsBottom, 800, 0), None);
}

#[test]
fn labels() {
    assert_eq!(view_label(AppView::Chapters), "CHAPTERS");
    assert_eq!(orientation_label(DisplayOrientation::PortraitButtonsLeft), "PORTRAIT LEFT");
    assert_eq!(refresh_policy_label(RefreshPolicy::FullEveryTen), "FULL EVERY 10");
    assert_eq!(button_label(Some(Button::Confirm)), "OK");
    assert_eq!(button_label(None), "NONE");
    assert_eq!(app_button_label(Button::Previous), "PREV");
    assert!(is_shell_view(AppView::Sync));
    assert!(!is_shell_view(AppView::Reading));
    assert!(!is_shell_view(AppView::Chapters));
}

#[test]
fn word_ends() {
    let text = b"one two  three";
    assert_eq!(next_word_end(text, 0), 3);
    assert_eq!(next_word_end(text, 4), 7);
    assert_eq!(next_word_end(text, 9), 14);
    assert_eq!(next_word_end(text, 3), 3);
}

#[test]
fn power_course() {
    assert!(!idle_window_expired(0));
    assert!(!idle_window_expired(4999));
    assert!(idle_window_expired(5000));
    assert!(idle_window_expired(u64::MAX));
    assert_eq!(power_step(PowerState::Running, PowerEvent::DisplaySettled, false), (PowerState::Running, PowerAction::Nothing));
    assert_eq!(power_step(PowerState::Running, PowerEvent::DisplaySettled, true), (PowerState::AwaitingPanel, PowerAction::SleepDisplay));
    assert_eq!(power_step(PowerState::AwaitingPanel, PowerEvent::DisplayAsleep, false), (PowerState::Running, PowerAction::DeepSleep));
    assert_eq!(power_step(PowerState::AwaitingPanel, PowerEvent::Activity, false), (PowerState::Running, PowerAction::Nothing));
    assert_eq!(power_step(PowerState::AwaitingPanel, PowerEvent::SleepNow, false), (PowerState::AwaitingPanel, PowerAction::Nothing));
    assert_eq!(power_step(PowerState::Running, PowerEvent::SleepNow, false), (PowerState::Running, PowerAction::SleepDisplay));
    assert_eq!(power_step(PowerState::Running, PowerEvent::DisplayAsleep, false), (PowerState::Running, PowerAction::Nothing));
}

#[test]
fn app_render_mapping() {
    assert!(draws_builtin_reading(AppView::Reading));
    assert!(!draws_builtin_reading(AppView::Home));
    assert_eq!(ui_view(AppView::Reading), UiView::Home);
    assert_eq!(ui_view(AppView::Settings), UiView::Settings);
    assert_eq!(ui_orientation(DisplayOrientation::LandscapeButtonsTop), UiOrientation::LandscapeButtonsTop);
    assert_eq!(ui_refresh_policy(RefreshPolicy::FullOnWake), UiRefreshPolicy::FullOnWake);
    assert_eq!(sleep_progress_permille(0, 4, 77), 250);
    assert_eq!(sleep_progress_permille(9, 4, 77), 1000);
    assert_eq!(sleep_progress_permille(0, 1, 77), 77);
    assert_eq!(sleep_progress_permille(2, 3, 0), 1000);
}

#[test]
fn fast_refresh_starts_from_the_previous_frame() {
    assert!(red_ram_from_previous(RefreshMode::Fast));
    assert!(!red_ram_from_previous(RefreshMode::Full));
    assert!(!red_ram_from_previous(RefreshMode::PowerDown));
}
