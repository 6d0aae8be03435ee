//! SNMP v1/v2c/v3 protocol core: BER codec, message model, USM security
//! transforms, walk and SET state machines, and VACM access control.

pub mod addr;
pub mod agent;
pub mod ber;
pub mod cli;
pub mod client;
pub mod error;
pub mod handler;
pub mod message;
pub mod octets;
pub mod oid;
pub mod pdu;
pub mod prelude;
pub mod text;
pub mod transport;
pub mod util;
pub mod v3;
pub mod value;
pub mod varbind;
pub mod version;

pub use client::builder::{Client, ClientConfig};
pub use error::{Error, ErrorStatus, Result};
pub use message::SecurityLevel;
pub use oid::Oid;
pub use pdu::{Pdu, PduType};
pub use value::Value;
pub use varbind::VarBind;
pub use version::Version;
