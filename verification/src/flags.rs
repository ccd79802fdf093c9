//! Bit masks for cell style flags.

use vstd::prelude::*;

verus! {

pub const BOLD: u16 = 0x01;
pub const ITALIC: u16 = 0x02;
pub const UNDERLINE: u16 = 0x04;
pub const STRIKETHROUGH: u16 = 0x08;
pub const DIM: u16 = 0x10;
pub const INVERSE: u16 = 0x20;
pub const HIDDEN: u16 = 0x40;
pub const BLINK: u16 = 0x80;

} // verus!
