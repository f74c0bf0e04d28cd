//! The app state the renderer is handed: which view, how the panel is
//! held, how it refreshes, and the render request itself.
use vstd::prelude::*;

verus! {

#[derive(Clone, Copy, Debug, PartialEq, Eq, Structural)]
pub enum AppView {
    Home,
    Library,
    Reading,
    Chapters,
    Sync,
    Settings,
}

#[derive(Clone, Copy, Debug, PartialEq, Eq, Structural)]
pub enum DisplayOrientation {
    LandscapeButtonsBottom,
    LandscapeButtonsTop,
    PortraitButtonsLeft,
    PortraitButtonsRight,
}

#[derive(Clone, Copy, Debug, PartialEq, Eq, Structural)]
pub enum RefreshPolicy {
    FastOnly,
    FullOnWake,
    FullEveryTen,
}

#[derive(Clone, Copy, Debug, PartialEq, Eq, Structural)]
pub enum Button {
    Power,
    Back,
    Confirm,
    Previous,
    Next,
}

/// Everything one frame is drawn from.
#[derive(Clone, Copy, Debug, PartialEq, Eq, Structural)]
pub struct RenderRequest {
    pub view: AppView,
    pub orientation: DisplayOrientation,
    pub refresh_policy: RefreshPolicy,
    pub font_size: u8,
    pub line_spacing: u8,
    pub selection: u8,
    pub chapter: u16,
    pub page: u32,
    pub page_count: u32,
    pub battery_percent: u8,
    pub book_id: u32,
    pub last_button: Option<Button>,
    pub aux_raw: u16,
    pub nav_raw: u16,
    pub page_raw: u16,
}

} // verus!
