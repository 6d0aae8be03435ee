//! Handler types for SNMP MIB operations: the results of handler calls, the
//! request context, and a sorted table of OIDs.

pub mod context;
pub mod oid_table;
pub mod results;

pub use crate::agent::vacm::SecurityModel;
pub use context::RequestContext;
pub use oid_table::OidTable;
pub use results::{GetNextResult, GetResult, Response, SetResult};
