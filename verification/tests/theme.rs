use rusty_calendar::pixel::{blend_pixel, color_to_pixel};
use rusty_calendar::theme::{hex, light_theme, parse_hex_color, readable_on, subtle_today_background, Color, HexColor};

#[test]
fn parses_profile_color() {
    assert_eq!(parse_hex_color("#1e66f5"), Some(light_theme().primary));
}

#[test]
fn parse_hex_color_accepts_upper_case_and_rejects_malformed_text() {
    assert_eq!(parse_hex_color("#1E66F5"), Some(Color::from_rgba8(0x1e, 0x66, 0xf5, 255)));
    assert_eq!(parse_hex_color("1e66f5"), None);
    assert_eq!(parse_hex_color("#1e66f"), None);
    assert_eq!(parse_hex_color("#1e66f5a"), None);
    assert_eq!(parse_hex_color("#1e66g5"), None);
    assert_eq!(parse_hex_color(""), None);
}

#[test]
fn hex_color_reads_rgb_and_rgba_layouts() {
    let rgb = HexColor::from_rgb(0x4c4f69);
    assert_eq!(rgb.rgba(), (0x4c, 0x4f, 0x69, 255));
    let rgba = HexColor::from_rgba(0x11223344);
    assert_eq!(rgba.rgba(), (0x11, 0x22, 0x33, 0x44));
    assert_eq!(rgba.red(), 0x11);
    assert_eq!(rgba.alpha(), 0x44);
    // bits above 0xRRGGBB are not part of an rgb color
    assert_eq!(HexColor::from_rgb(0xff000001).rgba(), (0, 0, 1, 255));
}

#[test]
fn hex_builds_opaque_colors() {
    assert_eq!(hex(0x1e66f5), Color { r: 0x1e, g: 0x66, b: 0xf5, a: 255 });
}

#[test]
fn theme_maps_palette_roles() {
    let theme = light_theme();
    assert_eq!(theme.surface, hex(0xeff1f5));
    assert_eq!(theme.text, hex(0x4c4f69));
    assert_eq!(theme.border, hex(0xccd0da));
    assert_eq!(theme.success, hex(0x40a02b));
    assert_eq!(theme.danger, hex(0xd20f39));
}

#[test]
fn readable_on_picks_contrasting_text() {
    assert_eq!(readable_on(hex(0x1e66f5)), Color::from_rgba8(255, 255, 255, 255));
    assert_eq!(readable_on(hex(0xeff1f5)), Color::from_rgba8(0, 0, 0, 255));
    // black is dark: white text on it
    assert_eq!(readable_on(Color::from_rgba8(0, 0, 0, 255)), Color::from_rgba8(255, 255, 255, 255));
}

#[test]
fn today_background_is_translucent_primary() {
    assert_eq!(subtle_today_background(), Color::from_rgba8(0x1e, 0x66, 0xf5, 24));
}

#[test]
fn color_to_pixel_packs_rgb() {
    assert_eq!(color_to_pixel(hex(0x123456)), 0x123456);
    assert_eq!(color_to_pixel(Color::from_rgba8(1, 2, 3, 0)), 0x010203);
}

#[test]
fn blend_pixel_composites_over_destination() {
    assert_eq!(blend_pixel([10, 20, 30, 0], 0x405060), 0x405060);
    assert_eq!(blend_pixel([10, 20, 30, 255], 0x405060), 0x0a141e);
    // half transparent black over white
    assert_eq!(blend_pixel([0, 0, 0, 128], 0xffffff), 0x7f7f7f);
}
