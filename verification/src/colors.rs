//! The embed color palette, as the chat surface shows it.
use vstd::prelude::*;

verus! {

pub const ROSEWATER: u32 = 0xdc8a78;

pub const FLAMINGO: u32 = 0xdd7878;

pub const PINK: u32 = 0xea76cb;

pub const MAUVE: u32 = 0x8839ef;

pub const RED: u32 = 0xd20f39;

pub const MAROON: u32 = 0xe64553;

pub const PEACH: u32 = 0xfe640b;

pub const YELLOW: u32 = 0xdf8e1d;

pub const GREEN: u32 = 0x40a02b;

pub const TEAL: u32 = 0x179299;

pub const SKY: u32 = 0x04a5e5;

pub const SAPPHIRE: u32 = 0x209fb5;

pub const BLUE: u32 = 0x1e66f5;

pub const LAVENDER: u32 = 0x7287fd;

pub const SUCCESS: u32 = GREEN;

pub const ERROR: u32 = RED;

pub const WARNING: u32 = YELLOW;

pub const INFO: u32 = BLUE;

pub const PRIMARY: u32 = SAPPHIRE;

pub const ACCENT: u32 = MAUVE;

pub const LIVE: u32 = GREEN;

} // verus!
