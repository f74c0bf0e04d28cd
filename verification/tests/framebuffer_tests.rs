use xteink_x4_os::app_types::DisplayOrientation;
use xteink_x4_os::fb::{fill_transformed_band, mirror_framebuffer_long_axis, Framebuffer, BAND_BYTES};
use xteink_x4_os::ui::{draw_battery_icon_ui, draw_progress_bar_ui, Ui};

#[test]
fn pixels_set_and_read_back() {
    let mut fb = Framebuffer::new();
    assert!(fb.pixel(0, 0));
    fb.clear(false);
    assert!(!fb.pixel(799, 479));
    fb.set_pixel(3, 2, true);
    assert!(fb.pixel(3, 2));
    assert!(!fb.pixel(2, 2));
    assert_eq!(fb.bytes[200], 0x10);
    fb.set_pixel(900, 2, true);
    fb.set_pixel(3, 2, false);
    assert_eq!(fb.bytes[200], 0);
}

#[test]
fn mirror_flips_rows() {
    let mut fb = Framebuffer::new();
    fb.clear(false);
    fb.set_pixel(10, 0, true);
    fb.set_pixel(20, 300, true);
    mirror_framebuffer_long_axis(&mut fb);
    assert!(fb.pixel(10, 479));
    assert!(!fb.pixel(10, 0));
    assert!(fb.pixel(20, 179));
    mirror_framebuffer_long_axis(&mut fb);
    assert!(fb.pixel(10, 0));
    assert!(fb.pixel(20, 300));
}

#[test]
fn bands_are_mirrored_and_bit_reversed() {
    let mut fb = Framebuffer::new();
    fb.clear(false);
    fb.set_pixel(0, 1, true);
    fb.set_pixel(9, 1, true);
    let mut out = [0x55u8; BAND_BYTES];
    let len = fill_transformed_band(&fb, 0, &mut out);
    assert_eq!(len, 8000);
    assert_eq!(out[100 + 99], 0x01);
    assert_eq!(out[100 + 98], 0x02);
    assert_eq!(out[0], 0);
    let mut tail = [0x55u8; BAND_BYTES];
    let len = fill_transformed_band(&fb, 440, &mut tail);
    assert_eq!(len, 4000);
    assert_eq!(tail[4000], 0x55);
}

#[test]
fn ui_shapes_land_in_portrait() {
    let mut fb = Framebuffer::new();
    {
        let mut ui = Ui::new(&mut fb, DisplayOrientation::PortraitButtonsLeft);
        ui.fill_rect(0, 0, 2, 2, false);
        ui.stroke_rect(100, 100, 3, 3, false);
        ui.set_pixel(5000, 0, false);
        ui.draw_glyph(&[0b0000_0001, 0, 0, 0, 0b0100_0000], 200, 300, false);
    }
    assert!(!fb.pixel(0, 479));
    assert!(!fb.pixel(1, 478));
    assert!(fb.pixel(2, 479));
    assert!(!fb.pixel(100, 379));
    assert!(fb.pixel(101, 378));
    assert!(!fb.pixel(102, 377));
    assert!(!fb.pixel(300, 279));
    assert!(!fb.pixel(306, 275));
    assert!(fb.pixel(301, 279));
}

#[test]
fn progress_bar_outline_and_fill() {
    let mut fb = Framebuffer::new();
    {
        let mut ui = Ui::new(&mut fb, DisplayOrientation::LandscapeButtonsBottom);
        draw_progress_bar_ui(&mut ui, 142, 238, 196, 6, 420);
    }
    assert!(!fb.pixel(142, 238));
    assert!(!fb.pixel(337, 243));
    assert!(fb.pixel(143, 240));
    assert!(!fb.pixel(144, 240));
    assert!(!fb.pixel(223, 241));
    assert!(fb.pixel(224, 240));
    assert!(fb.pixel(144, 242));
}

#[test]
fn empty_progress_bar_is_only_an_outline() {
    let mut fb = Framebuffer::new();
    {
        let mut ui = Ui::new(&mut fb, DisplayOrientation::LandscapeButtonsBottom);
        draw_progress_bar_ui(&mut ui, 10, 10, 100, 10, 0);
    }
    assert!(!fb.pixel(10, 10));
    assert!(!fb.pixel(109, 19));
    assert!(fb.pixel(12, 12));
}

#[test]
fn battery_icon_shows_its_bars() {
    let mut fb = Framebuffer::new();
    {
        let mut ui = Ui::new(&mut fb, DisplayOrientation::LandscapeButtonsBottom);
        draw_battery_icon_ui(&mut ui, 404, 100, 2);
    }
    assert!(!fb.pixel(404, 100));
    assert!(!fb.pixel(439, 115));
    assert!(!fb.pixel(440, 105));
    assert!(!fb.pixel(443, 110));
    assert!(fb.pixel(444, 105));
    assert!(!fb.pixel(408, 104));
    assert!(!fb.pixel(412, 104));
    assert!(fb.pixel(413, 104));
    assert!(!fb.pixel(416, 111));
    assert!(fb.pixel(424, 104));
    assert!(fb.pixel(408, 103));
}

#[test]
fn copy_keeps_every_pixel() {
    let mut a = Framebuffer::new();
    a.clear(false);
    a.set_pixel(7, 9, true);
    let mut b = Framebuffer::new();
    b.copy_from(&a);
    assert!(b.pixel(7, 9));
    assert!(!b.pixel(8, 9));
    assert_eq!(a.bytes, b.bytes);
}
