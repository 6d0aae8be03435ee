//! BER (Basic Encoding Rules) codec for the SNMP subset of X.690.

pub mod decode;
pub mod encode;
pub mod length;
pub mod tag;

pub use decode::Decoder;
pub use encode::EncodeBuf;
pub use length::{decode_length, encode_length, MAX_LENGTH};
pub use tag::{is_constructed, tag_class, tag_number};
