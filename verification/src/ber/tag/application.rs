//! Application tags (class bits 01): the SNMP-specific types.

use vstd::prelude::*;

verus! {

pub const IP_ADDRESS: u8 = 0x40;

pub const COUNTER32: u8 = 0x41;

/// Gauge32, also Unsigned32.
pub const GAUGE32: u8 = 0x42;

pub const TIMETICKS: u8 = 0x43;

pub const OPAQUE: u8 = 0x44;

pub const COUNTER64: u8 = 0x46;

} // verus!
