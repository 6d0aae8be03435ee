//! BER tag definitions for SNMP.
//!
//! Tag encoding follows X.690 Section 8.1.2:
//! - Bits 7-6: Class (00=Universal, 01=Application, 10=Context-specific, 11=Private)
//! - Bit 5: Primitive (0) or Constructed (1)
//! - Bits 4-0: Tag number (0-30, or 31 for long form)

use vstd::prelude::*;

pub mod application;
pub mod class;
pub mod context;
pub mod pdu;
pub mod universal;

verus! {

/// Constructed bit (bit 5)
pub const CONSTRUCTED: u8 = 0x20;

/// Check if a tag indicates a constructed type
#[inline]
pub fn is_constructed(tag: u8) -> (r: bool)
    ensures
        r == (tag & 0x20 != 0),
        r == ((tag / 32) % 2 == 1),
{
    assert((tag & 0x20 != 0) == ((tag / 32) % 2 == 1)) by (bit_vector);
    tag & CONSTRUCTED != 0
}

/// Get the class of a tag
#[inline]
pub fn tag_class(tag: u8) -> (r: u8)
    ensures
        r == tag & 0xC0,
        r == (tag / 64) * 64,
{
    assert(tag & 0xC0 == (tag / 64) * 64) by (bit_vector);
    tag & 0xC0
}

/// Get the tag number (bits 4-0)
#[inline]
pub fn tag_number(tag: u8) -> (r: u8)
    ensures
        r == tag & 0x1F,
        r == tag % 32,
{
    assert(tag & 0x1F == tag % 32) by (bit_vector);
    tag & 0x1F
}

} // verus!
