//! What the app-level renderer decides before drawing: which shell view a
//! request shows, and the progress the sleep screen reports.
use vstd::prelude::*;
use crate::app_types::{AppView, Button, DisplayOrientation, RefreshPolicy};

verus! {

/// The book the shell shows.
#[derive(Clone, Copy, Debug)]
pub struct UiBook<'a> {
    pub title: &'a str,
    pub author: &'a str,
    pub progress_permille: u16,
}

#[derive(Clone, Copy, Debug, PartialEq, Eq, Structural)]
pub enum UiLibraryStatus {
    NotScanned,
    Scanning,
    Ready,
    Empty,
    Error,
}

/// A chapter-list line.
#[derive(Clone, Copy, Debug)]
pub struct UiTocItem<'a> {
    pub title: &'a str,
    pub level: u8,
}

/// What the shell draws besides the render request.
#[derive(Clone, Copy, Debug)]
pub struct UiRenderModel<'a> {
    pub active_book: UiBook<'a>,
    pub library_status: UiLibraryStatus,
    pub library_entries: &'a [&'a str],
    pub chapters: &'a [UiTocItem<'a>],
}

#[derive(Clone, Copy, Debug, PartialEq, Eq, Structural)]
pub enum UiView {
    Home,
    Library,
    Chapters,
    Sync,
    Settings,
}

#[derive(Clone, Copy, Debug, PartialEq, Eq, Structural)]
pub enum UiOrientation {
    LandscapeButtonsBottom,
    LandscapeButtonsTop,
    PortraitButtonsLeft,
    PortraitButtonsRight,
}

#[derive(Clone, Copy, Debug, PartialEq, Eq, Structural)]
pub enum UiRefreshPolicy {
    FastOnly,
    FullOnWake,
    FullEveryTen,
}

/// Reading requests draw the built-in reading page; every other view goes
/// through the shell.
pub fn draws_builtin_reading(view: AppView) -> (r: bool)
    ensures
        r == (view == AppView::Reading),
{
    view == AppView::Reading
}

/// The shell view of an app view; reading shows as home in the shell.
pub fn ui_view(view: AppView) -> (v: UiView)
    ensures
        v == match view {
            AppView::Home => UiView::Home,
            AppView::Library => UiView::Library,
            AppView::Reading => UiView::Home,
            AppView::Chapters => UiView::Chapters,
            AppView::Sync => UiView::Sync,
            AppView::Settings => UiView::Settings,
        },
{
    match view {
        AppView::Home => UiView::Home,
        AppView::Library => UiView::Library,
        AppView::Reading => UiView::Home,
        AppView::Chapters => UiView::Chapters,
        AppView::Sync => UiView::Sync,
        AppView::Settings => UiView::Settings,
    }
}

pub fn ui_orientation(orientation: DisplayOrientation) -> (o: UiOrientation)
    ensures
        o == match orientation {
            DisplayOrientation::LandscapeButtonsBottom => UiOrientation::LandscapeButtonsBottom,
            DisplayOrientation::LandscapeButtonsTop => UiOrientation::LandscapeButtonsTop,
            DisplayOrientation::PortraitButtonsLeft => UiOrientation::PortraitButtonsLeft,
            DisplayOrientation::PortraitButtonsRight => UiOrientation::PortraitButtonsRight,
        },
{
    match orientation {
        DisplayOrientation::LandscapeButtonsBottom => UiOrientation::LandscapeButtonsBottom,
        DisplayOrientation::LandscapeButtonsTop => UiOrientation::LandscapeButtonsTop,
        DisplayOrientation::PortraitButtonsLeft => UiOrientation::PortraitButtonsLeft,
        DisplayOrientation::PortraitButtonsRight => UiOrientation::PortraitButtonsRight,
    }
}

pub fn ui_refresh_policy(policy: RefreshPolicy) -> (p: UiRefreshPolicy)
    ensures
        p == match policy {
            RefreshPolicy::FastOnly => UiRefreshPolicy::FastOnly,
            RefreshPolicy::FullOnWake => UiRefreshPolicy::FullOnWake,
            RefreshPolicy::FullEveryTen => UiRefreshPolicy::FullEveryTen,
        },
{
    match policy {
        RefreshPolicy::FastOnly => UiRefreshPolicy::FastOnly,
        RefreshPolicy::FullOnWake => UiRefreshPolicy::FullOnWake,
        RefreshPolicy::FullEveryTen => UiRefreshPolicy::FullEveryTen,
    }
}

pub fn button_label(button: Button) -> (s: &'static str)
    ensures
        s@ == match button {
            Button::Power => "POWER"@,
            Button::Back => "BACK"@,
            Button::Confirm => "OK"@,
            Button::Previous => "PREV"@,
            Button::Next => "NEXT"@,
        },
{
    match button {
        Button::Power => "POWER",
        Button::Back => "BACK",
        Button::Confirm => "OK",
        Button::Previous => "PREV",
        Button::Next => "NEXT",
    }
}

/// The progress the sleep screen shows: with more than one page, the pages
/// read up to and including the current one, in permille of the section;
/// otherwise the book's own progress.
pub open spec fn sleep_progress_spec(page: u32, page_count: u32, book_permille: u16) -> u16 {
    if page_count > 1 {
        let read = if page + 1 <= page_count {
            page + 1
        } else {
            page_count as int
        };
        ((read * 1000) / page_count as int) as u16
    } else {
        book_permille
    }
}

pub fn sleep_progress_permille(page: u32, page_count: u32, book_permille: u16) -> (p: u16)
    requires
        page_count > 1 ==> page < u32::MAX,
    ensures
        p == sleep_progress_spec(page, page_count, book_permille),
        page_count > 1 ==> p <= 1000,
{
    if page_count > 1 {
        let next = page as u64 + 1;
        let read = if next <= page_count as u64 {
            next
        } else {
            page_count as u64
        };
        let pc = page_count as u64;
        assert((read * 1000) as int / (pc as int) <= 1000) by (nonlinear_arith)
            requires
                read <= pc,
                pc > 1,
        ;
        ((read * 1000) / page_count as u64) as u16
    } else {
        book_permille
    }
}

} // verus!
