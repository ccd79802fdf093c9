//! Tests of color resolution and cell attributes.

use codelane::flags;
use codelane::renderer::{index_to_css, CellAttributes, TerminalColor, DEFAULT_BG, DEFAULT_FG};

#[test]
fn test_ansi_16_palette() {
    assert_eq!(index_to_css(0), "#000000");
    assert_eq!(index_to_css(1), "#cd0000");
    assert_eq!(index_to_css(7), "#e5e5e5");
    assert_eq!(index_to_css(15), "#ffffff");
}

#[test]
fn test_color_cube_entries() {
    // 16 is the cube origin; 196 is pure red (r=5, g=0, b=0)
    assert_eq!(index_to_css(16), "#000000");
    assert_eq!(index_to_css(196), "#ff0000");
    assert_eq!(index_to_css(231), "#ffffff");
}

#[test]
fn test_grayscale_ramp() {
    assert_eq!(index_to_css(232), "#080808");
    assert_eq!(index_to_css(255), "#eeeeee");
}

#[test]
fn test_fg_and_bg_defaults() {
    assert_eq!(TerminalColor::Default.to_fg_css(), DEFAULT_FG);
    assert_eq!(TerminalColor::Default.to_bg_css(), DEFAULT_BG);
    assert_eq!(TerminalColor::Rgb(10, 20, 30).to_fg_css(), "#0a141e");
    assert_eq!(TerminalColor::Indexed(1).to_bg_css(), "#cd0000");
}

#[test]
fn test_attribute_flags() {
    let mut attrs = CellAttributes::new();
    attrs.set_bold(true);
    attrs.set_underline(true);
    assert_eq!(attrs.flags, flags::BOLD | flags::UNDERLINE);
    attrs.set_bold(false);
    assert_eq!(attrs.flags, flags::UNDERLINE);
    attrs.reset();
    assert_eq!(attrs.flags, 0);
    assert_eq!(attrs.fg, TerminalColor::Default);
}
