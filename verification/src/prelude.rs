//! The types that most users of the library need, for one import.

pub use crate::client::builder::Client;
pub use crate::error::{Error, Result};
pub use crate::oid::Oid;
pub use crate::v3::{AuthProtocol, PrivProtocol};
pub use crate::value::Value;
pub use crate::varbind::VarBind;
pub use crate::version::Version;
