use vstd::prelude::*;

verus! {

/// The bits of the Game Boy Advance key register, one per button.
pub const A: u32 = 0x1;
pub const B: u32 = 0x2;
pub const SELECT: u32 = 0x4;
pub const START: u32 = 0x8;
pub const RIGHT: u32 = 0x10;
pub const LEFT: u32 = 0x20;
pub const UP: u32 = 0x40;
pub const DOWN: u32 = 0x80;
pub const R: u32 = 0x100;
pub const L: u32 = 0x200;

} // verus!
