//! Transport decisions: request correlation on a shared socket, and the
//! framing of messages on a stream.

pub mod shared;
pub mod tcp;

pub use shared::{
    extract_request_id, initial_request_id, Correlator, Dispatch, PendingRequest,
    SharedTransportConfig, SharedUdpTransportBuilder,
};
pub use tcp::{frame_length, Frame};
