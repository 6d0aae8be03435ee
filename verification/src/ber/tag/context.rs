//! Context-specific tags (class bits 10): the exception values.

use vstd::prelude::*;

verus! {

pub const NO_SUCH_OBJECT: u8 = 0x80;

pub const NO_SUCH_INSTANCE: u8 = 0x81;

pub const END_OF_MIB_VIEW: u8 = 0x82;

} // verus!
