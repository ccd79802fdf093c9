//! Terminal render state: colors, cell attributes, and the detached
//! structures handed to a host UI.
//!
//! Colors resolve through the fixed 16-entry ANSI palette, the 216-color
//! cube for indices 16-231 (component 0 or 55 + 40*n), and the 24-step
//! grayscale ramp for 232-255 (gray = 8 + 10*(idx - 232)).

use vstd::prelude::*;

use crate::flags;
use crate::text::{char_to_string, push_char};

verus! {

/// Default foreground color.
pub const DEFAULT_FG: &'static str = "#d4d4d4";

/// Default background color.
pub const DEFAULT_BG: &'static str = "transparent";

/// Terminal color: default, indexed (0-255), or RGB.
#[derive(Debug, Clone, Copy, PartialEq, Eq, Structural)]
pub enum TerminalColor {
    /// Default color (foreground or background).
    Default,
    /// Indexed color (0-255).
    Indexed(u8),
    /// RGB color.
    Rgb(u8, u8, u8),
}

impl Default for TerminalColor {
    fn default() -> (r: Self)
        ensures
            r == TerminalColor::Default,
    {
        TerminalColor::Default
    }
}

/// The hexadecimal digit character of a value below sixteen.
pub open spec fn spec_hex_digit(n: int) -> char {
    if n == 10 {
        'a'
    } else if n == 11 {
        'b'
    } else if n == 12 {
        'c'
    } else if n == 13 {
        'd'
    } else if n == 14 {
        'e'
    } else if n == 15 {
        'f'
    } else {
        crate::text::spec_digit(n)
    }
}

/// Two lowercase hexadecimal digits of a byte.
pub open spec fn spec_hex2(n: u8) -> Seq<char> {
    seq![spec_hex_digit(n as int / 16), spec_hex_digit(n as int % 16)]
}

/// A `#rrggbb` CSS color.
pub open spec fn spec_rgb_css(r: u8, g: u8, b: u8) -> Seq<char> {
    seq!['#'] + spec_hex2(r) + spec_hex2(g) + spec_hex2(b)
}

/// The fixed 16-entry ANSI palette.
pub open spec fn spec_ansi_16(idx: u8) -> Seq<char> {
    if idx == 0 {
        "#000000"@
    } else if idx == 1 {
        "#cd0000"@
    } else if idx == 2 {
        "#00cd00"@
    } else if idx == 3 {
        "#cdcd00"@
    } else if idx == 4 {
        "#0000ee"@
    } else if idx == 5 {
        "#cd00cd"@
    } else if idx == 6 {
        "#00cdcd"@
    } else if idx == 7 {
        "#e5e5e5"@
    } else if idx == 8 {
        "#7f7f7f"@
    } else if idx == 9 {
        "#ff0000"@
    } else if idx == 10 {
        "#00ff00"@
    } else if idx == 11 {
        "#ffff00"@
    } else if idx == 12 {
        "#5c5cff"@
    } else if idx == 13 {
        "#ff00ff"@
    } else if idx == 14 {
        "#00ffff"@
    } else {
        "#ffffff"@
    }
}

/// One axis of the 216-color cube: 0 stays 0, 1-5 become 55 + 40*n.
pub open spec fn spec_cube_component(n: int) -> int {
    if n == 0 {
        0
    } else {
        55 + n * 40
    }
}

/// CSS color of a 256-color palette index.
pub open spec fn spec_index_css(idx: u8) -> Seq<char> {
    if idx < 16 {
        spec_ansi_16(idx)
    } else if idx <= 231 {
        let i = idx - 16;
        spec_rgb_css(
            spec_cube_component((i / 36) % 6) as u8,
            spec_cube_component((i / 6) % 6) as u8,
            spec_cube_component(i as int % 6) as u8,
        )
    } else {
        let gray = (8 + (idx - 232) * 10) as u8;
        spec_rgb_css(gray, gray, gray)
    }
}

/// CSS foreground color of a terminal color.
pub open spec fn spec_fg_css(c: TerminalColor) -> Seq<char> {
    match c {
        TerminalColor::Default => DEFAULT_FG@,
        TerminalColor::Indexed(idx) => spec_index_css(idx),
        TerminalColor::Rgb(r, g, b) => spec_rgb_css(r, g, b),
    }
}

/// CSS background color of a terminal color.
pub open spec fn spec_bg_css(c: TerminalColor) -> Seq<char> {
    match c {
        TerminalColor::Default => DEFAULT_BG@,
        TerminalColor::Indexed(idx) => spec_index_css(idx),
        TerminalColor::Rgb(r, g, b) => spec_rgb_css(r, g, b),
    }
}

pub fn hex_digit_char_pub(n: u8) -> (c: char)
    requires
        n < 16,
    ensures
        c == spec_hex_digit(n as int),
{
    if n == 0 {
        '0'
    } else if n == 1 {
        '1'
    } else if n == 2 {
        '2'
    } else if n == 3 {
        '3'
    } else if n == 4 {
        '4'
    } else if n == 5 {
        '5'
    } else if n == 6 {
        '6'
    } else if n == 7 {
        '7'
    } else if n == 8 {
        '8'
    } else if n == 9 {
        '9'
    } else if n == 10 {
        'a'
    } else if n == 11 {
        'b'
    } else if n == 12 {
        'c'
    } else if n == 13 {
        'd'
    } else if n == 14 {
        'e'
    } else {
        'f'
    }
}

fn push_hex2(s: &mut String, n: u8)
    ensures
        final(s)@ == old(s)@ + spec_hex2(n),
{
    push_char(s, hex_digit_char_pub(n / 16));
    push_char(s, hex_digit_char_pub(n % 16));
    proof {
        assert(final(s)@ =~= old(s)@ + spec_hex2(n));
    }
}

/// A `#rrggbb` CSS color string.
pub fn rgb_to_css(r: u8, g: u8, b: u8) -> (s: String)
    ensures
        s@ == spec_rgb_css(r, g, b),
{
    let mut s = char_to_string('#');
    push_hex2(&mut s, r);
    push_hex2(&mut s, g);
    push_hex2(&mut s, b);
    proof {
        assert(s@ =~= spec_rgb_css(r, g, b));
    }
    s
}

/// Resolves a 256-color palette index to its CSS color: the fixed 16-entry
/// palette, the 216-color cube, or the grayscale ramp.
pub fn index_to_css(idx: u8) -> (s: String)
    ensures
        s@ == spec_index_css(idx),
{
    if idx < 16 {
        let lit = if idx == 0 {
            "#000000"
        } else if idx == 1 {
            "#cd0000"
        } else if idx == 2 {
            "#00cd00"
        } else if idx == 3 {
            "#cdcd00"
        } else if idx == 4 {
            "#0000ee"
        } else if idx == 5 {
            "#cd00cd"
        } else if idx == 6 {
            "#00cdcd"
        } else if idx == 7 {
            "#e5e5e5"
        } else if idx == 8 {
            "#7f7f7f"
        } else if idx == 9 {
            "#ff0000"
        } else if idx == 10 {
            "#00ff00"
        } else if idx == 11 {
            "#ffff00"
        } else if idx == 12 {
            "#5c5cff"
        } else if idx == 13 {
            "#ff00ff"
        } else if idx == 14 {
            "#00ffff"
        } else {
            "#ffffff"
        };
        lit.to_owned()
    } else if idx <= 231 {
        let i = idx - 16;
        let r = (i / 36) % 6;
        let g = (i / 6) % 6;
        let b = i % 6;
        let r = if r == 0 {
            0
        } else {
            55 + r * 40
        };
        let g = if g == 0 {
            0
        } else {
            55 + g * 40
        };
        let b = if b == 0 {
            0
        } else {
            55 + b * 40
        };
        rgb_to_css(r, g, b)
    } else {
        let gray = 8 + (idx - 232) * 10;
        rgb_to_css(gray, gray, gray)
    }
}

impl TerminalColor {
    /// CSS color string when used as a foreground.
    pub fn to_fg_css(&self) -> (s: String)
        ensures
            s@ == spec_fg_css(*self),
    {
        match self {
            TerminalColor::Default => DEFAULT_FG.to_owned(),
            TerminalColor::Indexed(idx) => index_to_css(*idx),
            TerminalColor::Rgb(r, g, b) => rgb_to_css(*r, *g, *b),
        }
    }

    /// CSS color string when used as a background.
    pub fn to_bg_css(&self) -> (s: String)
        ensures
            s@ == spec_bg_css(*self),
    {
        match self {
            TerminalColor::Default => DEFAULT_BG.to_owned(),
            TerminalColor::Indexed(idx) => index_to_css(*idx),
            TerminalColor::Rgb(r, g, b) => rgb_to_css(*r, *g, *b),
        }
    }
}

/// Style attributes of one cell: foreground, background, and a flag bit set.
#[derive(Debug, Clone, Copy, PartialEq, Eq, Structural)]
pub struct CellAttributes {
    pub fg: TerminalColor,
    pub bg: TerminalColor,
    pub flags: u16,
}

/// The attribute state with default colors and no flags set.
pub open spec fn spec_default_attrs() -> CellAttributes {
    CellAttributes { fg: TerminalColor::Default, bg: TerminalColor::Default, flags: 0 }
}

impl Default for CellAttributes {
    fn default() -> (r: Self)
        ensures
            r == spec_default_attrs(),
    {
        CellAttributes { fg: TerminalColor::Default, bg: TerminalColor::Default, flags: 0 }
    }
}

/// An attribute value with one flag forced on or off.
pub open spec fn spec_with_flag(a: CellAttributes, mask: u16, on: bool) -> CellAttributes {
    CellAttributes {
        flags: if on {
            a.flags | mask
        } else {
            a.flags & !mask
        },
        ..a
    }
}

impl CellAttributes {
    /// Default attributes.
    pub fn new() -> (r: Self)
        ensures
            r == spec_default_attrs(),
    {
        Self::default()
    }

    /// Resets every attribute and both colors to their defaults.
    pub fn reset(&mut self)
        ensures
            *final(self) == spec_default_attrs(),
    {
        *self = Self::default();
    }

    fn set_flag(&mut self, mask: u16, on: bool)
        ensures
            *final(self) == spec_with_flag(*old(self), mask, on),
    {
        if on {
            self.flags = self.flags | mask;
        } else {
            self.flags = self.flags & !mask;
        }
    }

    /// Turns the bold flag on or off.
    pub fn set_bold(&mut self, on: bool)
        ensures
            *final(self) == spec_with_flag(*old(self), flags::BOLD, on),
    {
        self.set_flag(flags::BOLD, on);
    }

    /// Turns the dim flag on or off.
    pub fn set_dim(&mut self, on: bool)
        ensures
            *final(self) == spec_with_flag(*old(self), flags::DIM, on),
    {
        self.set_flag(flags::DIM, on);
    }

    /// Turns the italic flag on or off.
    pub fn set_italic(&mut self, on: bool)
        ensures
            *final(self) == spec_with_flag(*old(self), flags::ITALIC, on),
    {
        self.set_flag(flags::ITALIC, on);
    }

    /// Turns the underline flag on or off.
    pub fn set_underline(&mut self, on: bool)
        ensures
            *final(self) == spec_with_flag(*old(self), flags::UNDERLINE, on),
    {
        self.set_flag(flags::UNDERLINE, on);
    }

    /// Turns the blink flag on or off.
    pub fn set_blink(&mut self, on: bool)
        ensures
            *final(self) == spec_with_flag(*old(self), flags::BLINK, on),
    {
        self.set_flag(flags::BLINK, on);
    }

    /// Turns the inverse flag on or off.
    pub fn set_inverse(&mut self, on: bool)
        ensures
            *final(self) == spec_with_flag(*old(self), flags::INVERSE, on),
    {
        self.set_flag(flags::INVERSE, on);
    }

    /// Turns the hidden flag on or off.
    pub fn set_hidden(&mut self, on: bool)
        ensures
            *final(self) == spec_with_flag(*old(self), flags::HIDDEN, on),
    {
        self.set_flag(flags::HIDDEN, on);
    }

    /// Turns the strikethrough flag on or off.
    pub fn set_strikethrough(&mut self, on: bool)
        ensures
            *final(self) == spec_with_flag(*old(self), flags::STRIKETHROUGH, on),
    {
        self.set_flag(flags::STRIKETHROUGH, on);
    }
}

/// A single cell handed to the UI, with resolved CSS colors.
#[derive(Debug, Clone, PartialEq)]
pub struct RenderCell {
    /// Column position (0-indexed).
    pub x: usize,
    /// Row position (0-indexed).
    pub y: usize,
    /// Character to display.
    pub c: String,
    /// Foreground color as a CSS color string.
    pub fg: String,
    /// Background color as a CSS color string.
    pub bg: String,
    /// Style flag bit set.
    pub flags: u16,
}

/// Cursor state handed to the UI.
#[derive(Debug, Clone, PartialEq)]
pub struct CursorState {
    /// Column position.
    pub x: usize,
    /// Row position.
    pub y: usize,
    /// Cursor shape: "block", "underline", or "beam".
    pub shape: String,
    /// Whether the cursor is visible.
    pub visible: bool,
}

/// A selected rectangle of cells.
#[derive(Debug, Clone, PartialEq)]
pub struct SelectionRange {
    pub start_x: usize,
    pub start_y: usize,
    pub end_x: usize,
    pub end_y: usize,
}

/// A complete, detached render state: owns no reference back into the
/// buffer it was taken from.
#[derive(Debug, Clone, PartialEq)]
pub struct TerminalRenderState {
    /// All visible cells.
    pub cells: Vec<RenderCell>,
    /// Cursor state.
    pub cursor: CursorState,
    /// Terminal size.
    pub size: crate::TerminalSize,
    /// Selection ranges, if any.
    pub selections: Vec<SelectionRange>,
}

} // verus!
