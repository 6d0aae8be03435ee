//! The agent side: access control, handler lookup and the SET protocol.

pub mod admission;
pub mod dispatch;
pub mod registry;
pub mod set_handler;
pub mod vacm;

pub use admission::{receive, Admission};
pub use dispatch::{
    bulk_schedule, community_known, requested_operation, resolve_oid, sniff_version, BulkRead,
    NextSearch, Operation, ResponseCollector,
};
pub use registry::HandlerRegistry;
pub use set_handler::{Resolution, SetAction, SetEvent, SetPhase, SetTransaction};
pub use vacm::{
    AccessEntryBuilder, ContextMatch, SecurityModel, VacmAccessEntry, VacmBuilder, VacmConfig, View,
    ViewSubtree,
};
