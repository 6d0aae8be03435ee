//! Universal tags (class bits 00).

use vstd::prelude::*;

verus! {

pub const INTEGER: u8 = 0x02;

pub const OCTET_STRING: u8 = 0x04;

/// Constructed OCTET STRING (0x24): not supported, rejected by the decoder.
pub const OCTET_STRING_CONSTRUCTED: u8 = 0x24;

pub const NULL: u8 = 0x05;

pub const OBJECT_IDENTIFIER: u8 = 0x06;

/// SEQUENCE, with the constructed bit.
pub const SEQUENCE: u8 = 0x30;

} // verus!
