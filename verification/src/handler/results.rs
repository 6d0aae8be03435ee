//! Result types for MIB handler operations.

use vstd::prelude::*;

use crate::error::ErrorStatus;
use crate::value::Value;
use crate::varbind::VarBind;

verus! {
/// Result of a SET operation phase. The variants map to RFC 3416 error
/// status codes.
#[derive(Debug, Clone, Copy, PartialEq, Eq, Structural)]
pub enum SetResult {
    /// Operation succeeded.
    Success,
    /// Access denied (security/authorization failure).
    NoAccess,
    /// Object is inherently read-only (not writable by design).
    NotWritable,
    /// Value has wrong ASN.1 type for this OID.
    WrongType,
    /// Value has wrong length for this OID.
    WrongLength,
    /// Value encoding is incorrect.
    WrongEncoding,
    /// Value is not valid for this OID (semantic check failed).
    WrongValue,
    /// Cannot create new row (table doesn't support row creation).
    NoCreation,
    /// Value is inconsistent with other values in the same SET.
    InconsistentValue,
    /// Resource unavailable (memory, locks, etc.).
    ResourceUnavailable,
    /// Commit failed (internal error during apply).
    CommitFailed,
    /// Undo failed (internal error during rollback).
    UndoFailed,
    /// Row name is inconsistent with existing data.
    InconsistentName,
}

impl SetResult {
    /// The error status that stands for the result.
    pub open spec fn status(self) -> ErrorStatus {
        match self {
            SetResult::Success => ErrorStatus::NoError,
            SetResult::NoAccess => ErrorStatus::NoAccess,
            SetResult::NotWritable => ErrorStatus::NotWritable,
            SetResult::WrongType => ErrorStatus::WrongType,
            SetResult::WrongLength => ErrorStatus::WrongLength,
            SetResult::WrongEncoding => ErrorStatus::WrongEncoding,
            SetResult::WrongValue => ErrorStatus::WrongValue,
            SetResult::NoCreation => ErrorStatus::NoCreation,
            SetResult::InconsistentValue => ErrorStatus::InconsistentValue,
            SetResult::ResourceUnavailable => ErrorStatus::ResourceUnavailable,
            SetResult::CommitFailed => ErrorStatus::CommitFailed,
            SetResult::UndoFailed => ErrorStatus::UndoFailed,
            SetResult::InconsistentName => ErrorStatus::InconsistentName,
        }
    }

    /// Check if this result indicates success.
    pub fn is_ok(&self) -> (r: bool)
        ensures
            r == (*self == SetResult::Success),
    {
        match self {
            SetResult::Success => true,
            _ => false,
        }
    }

    /// Convert to an ErrorStatus code.
    pub fn to_error_status(&self) -> (r: ErrorStatus)
        ensures
            r == self.status(),
            (r == ErrorStatus::NoError) == (*self == SetResult::Success),
    {
        match self {
            SetResult::Success => ErrorStatus::NoError,
            SetResult::NoAccess => ErrorStatus::NoAccess,
            SetResult::NotWritable => ErrorStatus::NotWritable,
            SetResult::WrongType => ErrorStatus::WrongType,
            SetResult::WrongLength => ErrorStatus::WrongLength,
            SetResult::WrongEncoding => ErrorStatus::WrongEncoding,
            SetResult::WrongValue => ErrorStatus::WrongValue,
            SetResult::NoCreation => ErrorStatus::NoCreation,
            SetResult::InconsistentValue => ErrorStatus::InconsistentValue,
            SetResult::ResourceUnavailable => ErrorStatus::ResourceUnavailable,
            SetResult::CommitFailed => ErrorStatus::CommitFailed,
            SetResult::UndoFailed => ErrorStatus::UndoFailed,
            SetResult::InconsistentName => ErrorStatus::InconsistentName,
        }
    }
}

/// Response to return from a handler.
#[derive(Debug, Clone)]
pub struct Response {
    /// Variable bindings in the response
    pub varbinds: Vec<VarBind>,
    /// Error status (0 = no error)
    pub error_status: ErrorStatus,
    /// Error index (1-based index of problematic varbind, 0 if no error)
    pub error_index: i32,
}

impl Response {
    /// Create a successful response with the given varbinds.
    pub fn success(varbinds: Vec<VarBind>) -> (r: Response)
        ensures
            r.varbinds == varbinds,
            r.error_status == ErrorStatus::NoError,
            r.error_index == 0,
    {
        Response { varbinds, error_status: ErrorStatus::NoError, error_index: 0 }
    }

    /// Create an error response.
    pub fn error(error_status: ErrorStatus, error_index: i32, varbinds: Vec<VarBind>) -> (r:
        Response)
        ensures
            r.varbinds == varbinds,
            r.error_status == error_status,
            r.error_index == error_index,
    {
        Response { varbinds, error_status, error_index }
    }
}

/// Result of a GET operation on a specific OID.
#[derive(Debug, Clone, PartialEq, Eq)]
pub enum GetResult {
    /// The OID exists and has this value.
    Value(Value),
    /// The object type is not implemented by this agent.
    NoSuchObject,
    /// The object type exists but this specific instance doesn't.
    NoSuchInstance,
}

impl GetResult {
    /// Create a `GetResult` from an `Option<Value>`; `None` is treated as
    /// `NoSuchObject`.
    pub fn from_option(value: Option<Value>) -> (r: GetResult)
        ensures
            r == match value {
                Some(v) => GetResult::Value(v),
                None => GetResult::NoSuchObject,
            },
    {
        match value {
            Some(v) => GetResult::Value(v),
            None => GetResult::NoSuchObject,
        }
    }
}

impl From<Value> for GetResult {
    fn from(value: Value) -> (r: GetResult) {
        GetResult::Value(value)
    }
}

impl vstd::std_specs::convert::FromSpecImpl<Value> for GetResult {
    open spec fn obeys_from_spec() -> bool {
        true
    }

    open spec fn from_spec(value: Value) -> GetResult {
        GetResult::Value(value)
    }
}

impl From<Option<Value>> for GetResult {
    fn from(value: Option<Value>) -> (r: GetResult) {
        GetResult::from_option(value)
    }
}

impl vstd::std_specs::convert::FromSpecImpl<Option<Value>> for GetResult {
    open spec fn obeys_from_spec() -> bool {
        true
    }

    open spec fn from_spec(value: Option<Value>) -> GetResult {
        match value {
            Some(v) => GetResult::Value(v),
            None => GetResult::NoSuchObject,
        }
    }
}

/// Result of a GETNEXT operation.
#[derive(Debug, Clone, PartialEq, Eq)]
pub enum GetNextResult {
    /// The next OID/value pair in the MIB tree.
    Value(VarBind),
    /// No more OIDs after the given one (end of MIB view).
    EndOfMibView,
}

impl GetNextResult {
    /// Create a `GetNextResult` from an `Option<VarBind>`; `None` is treated
    /// as `EndOfMibView`.
    pub fn from_option(value: Option<VarBind>) -> (r: GetNextResult)
        ensures
            r == match value {
                Some(vb) => GetNextResult::Value(vb),
                None => GetNextResult::EndOfMibView,
            },
    {
        match value {
            Some(vb) => GetNextResult::Value(vb),
            None => GetNextResult::EndOfMibView,
        }
    }

    /// Returns `true` if this is a value result.
    pub fn is_value(&self) -> (r: bool)
        ensures
            r == (*self is Value),
    {
        match self {
            GetNextResult::Value(_) => true,
            GetNextResult::EndOfMibView => false,
        }
    }

    /// Returns `true` if this is end of MIB view.
    pub fn is_end_of_mib_view(&self) -> (r: bool)
        ensures
            r == (*self is EndOfMibView),
    {
        match self {
            GetNextResult::Value(_) => false,
            GetNextResult::EndOfMibView => true,
        }
    }

    /// Converts to an `Option<VarBind>`.
    pub fn into_option(self) -> (r: Option<VarBind>)
        ensures
            r == match self {
                GetNextResult::Value(vb) => Some(vb),
                GetNextResult::EndOfMibView => None,
            },
    {
        match self {
            GetNextResult::Value(vb) => Some(vb),
            GetNextResult::EndOfMibView => None,
        }
    }
}

impl From<VarBind> for GetNextResult {
    fn from(vb: VarBind) -> (r: GetNextResult) {
        GetNextResult::Value(vb)
    }
}

impl vstd::std_specs::convert::FromSpecImpl<VarBind> for GetNextResult {
    open spec fn obeys_from_spec() -> bool {
        true
    }

    open spec fn from_spec(vb: VarBind) -> GetNextResult {
        GetNextResult::Value(vb)
    }
}

impl From<Option<VarBind>> for GetNextResult {
    fn from(value: Option<VarBind>) -> (r: GetNextResult) {
        GetNextResult::from_option(value)
    }
}

impl vstd::std_specs::convert::FromSpecImpl<Option<VarBind>> for GetNextResult {
    open spec fn obeys_from_spec() -> bool {
        true
    }

    open spec fn from_spec(value: Option<VarBind>) -> GetNextResult {
        match value {
            Some(vb) => GetNextResult::Value(vb),
            None => GetNextResult::EndOfMibView,
        }
    }
}

} // verus!
