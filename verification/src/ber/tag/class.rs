//! Tag class bits (bits 7-6).

use vstd::prelude::*;

verus! {

pub const UNIVERSAL: u8 = 0x00;

pub const APPLICATION: u8 = 0x40;

pub const CONTEXT_SPECIFIC: u8 = 0x80;

pub const PRIVATE: u8 = 0xC0;

} // verus!
