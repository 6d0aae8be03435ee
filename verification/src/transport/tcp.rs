//! Framing of messages on a stream transport: a message is one BER element,
//! so its length follows from the length octets of its outer SEQUENCE.

use vstd::prelude::*;

use crate::ber::length::{decode_length, parse_length};
use crate::error::DecodeErrorKind;
use crate::oid::Parsed;

verus! {

/// What the octets received so far hold.
#[derive(Debug, Clone, Copy, PartialEq, Eq, Structural)]
pub enum Frame {
    /// More octets are needed before the length of the message is known, or
    /// before the message is complete.
    Incomplete,
    /// The first `len` octets are one whole message.
    Complete { len: usize },
    /// The octets cannot start a message.
    Invalid { kind: DecodeErrorKind },
}

/// What the octets received so far hold: with fewer than two octets, or
/// with length octets that are cut off, more is needed; length octets that
/// the decoder refuses make the stream invalid; else the message has the
/// tag, the length octets and as many content octets as they say.
pub open spec fn frame_of(s: Seq<u8>) -> Frame {
    if s.len() < 2 {
        Frame::Incomplete
    } else {
        match parse_length(s, 1) {
            Parsed::Failed { at, kind } => if kind == DecodeErrorKind::TruncatedData {
                Frame::Incomplete
            } else {
                Frame::Invalid { kind }
            },
            Parsed::Value { value, next } => if next + value <= s.len() {
                Frame::Complete { len: (next + value) as usize }
            } else {
                Frame::Incomplete
            },
        }
    }
}

/// Decides whether the octets received so far hold a whole message.
pub fn frame_length(data: &[u8]) -> (r: Frame)
    ensures
        r == frame_of(data@),
{
    if data.len() < 2 {
        return Frame::Incomplete;
    }
    match decode_length(data, 1) {
        Err(kind) => {
            match kind {
                DecodeErrorKind::TruncatedData => Frame::Incomplete,
                other => Frame::Invalid { kind: other },
            }
        },
        Ok((len, start)) => {
            if len <= data.len() - start {
                Frame::Complete { len: start + len }
            } else {
                Frame::Incomplete
            }
        },
    }
}

} // verus!
