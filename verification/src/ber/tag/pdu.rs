//! PDU tags (context-specific, constructed).

use vstd::prelude::*;

verus! {

pub const GET_REQUEST: u8 = 0xA0;

pub const GET_NEXT_REQUEST: u8 = 0xA1;

pub const RESPONSE: u8 = 0xA2;

pub const SET_REQUEST: u8 = 0xA3;

pub const TRAP_V1: u8 = 0xA4;

pub const GET_BULK_REQUEST: u8 = 0xA5;

pub const INFORM_REQUEST: u8 = 0xA6;

pub const TRAP_V2: u8 = 0xA7;

pub const REPORT: u8 = 0xA8;

} // verus!
