//! Requests and the checks on their responses.
//!
//! A request is built from OIDs or variable bindings under a request-id; a
//! response is checked against the request-id and the version, and its
//! error status is turned into an error. On a datagram transport a request
//! that times out is sent again, with the same request-id, as often as the
//! configuration says; on a stream transport it is not.

use vstd::prelude::*;

use crate::addr::SocketAddress;
use crate::error::{Error, ErrorStatus, Result};
use crate::oid::Oid;
use crate::pdu::{duplicate_varbinds, Pdu, PduType, PduView};
use crate::value::{Value, ValueView};
use crate::varbind::{null_bindings, views, VarBind, VarBindView};
use crate::version::Version;

verus! {

/// The variable bindings of a read request: every OID bound to NULL.
pub fn null_varbinds(oids: &[Oid]) -> (r: Vec<VarBind>)
    ensures
        views(r@) == null_bindings(oids@),
{
    let n = oids.len();
    let mut out: Vec<VarBind> = Vec::with_capacity(n);
    let mut k: usize = 0;
    while k < n
        invariant
            k <= n,
            n == oids@.len(),
            out@.len() == k,
            forall|j: int|
                0 <= j < k ==> (#[trigger] out@[j])@ == (VarBindView {
                    oid: oids@[j]@,
                    value: ValueView::Null,
                }),
        decreases n - k,
    {
        out.push(VarBind::null(oids[k].duplicate()));
        k += 1;
    }
    proof {
        assert(views(out@) =~= null_bindings(oids@));
    }
    out
}

/// A GET request for the OIDs.
pub fn get_request(request_id: i32, oids: &[Oid]) -> (r: Pdu)
    ensures
        r@ == (PduView {
            pdu_type: PduType::GetRequest,
            request_id,
            error_status: 0,
            error_index: 0,
            varbinds: null_bindings(oids@),
        }),
{
    Pdu::new(PduType::GetRequest, request_id, null_varbinds(oids))
}

/// A GETNEXT request for the OIDs.
pub fn get_next_request(request_id: i32, oids: &[Oid]) -> (r: Pdu)
    ensures
        r@ == (PduView {
            pdu_type: PduType::GetNextRequest,
            request_id,
            error_status: 0,
            error_index: 0,
            varbinds: null_bindings(oids@),
        }),
{
    Pdu::new(PduType::GetNextRequest, request_id, null_varbinds(oids))
}

/// A GETBULK request for the OIDs.
pub fn get_bulk_request(request_id: i32, non_repeaters: i32, max_repetitions: i32, oids: &[Oid]) -> (r:
    Pdu)
    ensures
        r@ == (PduView {
            pdu_type: PduType::GetBulkRequest,
            request_id,
            error_status: non_repeaters,
            error_index: max_repetitions,
            varbinds: null_bindings(oids@),
        }),
{
    Pdu::get_bulk(request_id, non_repeaters, max_repetitions, null_varbinds(oids))
}

/// A SET request for the variable bindings.
pub fn set_request(request_id: i32, varbinds: Vec<VarBind>) -> (r: Pdu)
    ensures
        r@ == (PduView {
            pdu_type: PduType::SetRequest,
            request_id,
            error_status: 0,
            error_index: 0,
            varbinds: views(varbinds@),
        }),
{
    Pdu::new(PduType::SetRequest, request_id, varbinds)
}

/// The request-id after `id`: the ids are handed out in turn, and wrap
/// around after the largest.
pub fn next_request_id(id: i32) -> (r: i32)
    ensures
        r == (if id == 0x7FFF_FFFF {
            -0x8000_0000
        } else {
            id + 1
        }),
{
    if id == i32::MAX {
        i32::MIN
    } else {
        id + 1
    }
}

/// What to do when an attempt has timed out.
#[derive(Debug, Clone, Copy, PartialEq, Eq, Structural)]
pub enum RetryDecision {
    /// Send the request again, with the same request-id.
    Retransmit,
    /// Give up with a timeout.
    GiveUp,
}

/// Decides what follows a timeout, after `retransmissions` of the request
/// have been sent: a stream transport never sends again; a datagram
/// transport sends again until it has made `retries` retransmissions.
pub fn after_timeout(retransmissions: u32, retries: u32, is_stream: bool) -> (r: RetryDecision)
    ensures
        r == (if !is_stream && retransmissions < retries {
            RetryDecision::Retransmit
        } else {
            RetryDecision::GiveUp
        }),
{
    if !is_stream && retransmissions < retries {
        RetryDecision::Retransmit
    } else {
        RetryDecision::GiveUp
    }
}

/// The error of a request that was given up.
pub fn timeout_error(
    target: Option<SocketAddress>,
    elapsed_ms: u64,
    request_id: i32,
    retries: u32,
) -> (r: Error)
    ensures
        r == (Error::Timeout { target, elapsed_ms, request_id, retries }),
{
    Error::Timeout { target, elapsed_ms, request_id, retries }
}

/// The OID at a 1-based error index, if the index names a binding.
pub open spec fn oid_at(varbinds: Seq<VarBind>, index: int) -> Option<Seq<u32>> {
    if 1 <= index <= varbinds.len() {
        Some(varbinds[index - 1].oid@)
    } else {
        None
    }
}

/// What the check of a response finds, in its order: another version than
/// the request's; another request-id; under v1 the status `noSuchName` with
/// an index that names a binding, which is no error; any other status but
/// `noError`, as a protocol error with the status, the index and the OID at
/// the index.
pub enum ResponseCheck {
    WrongVersion,
    WrongRequestId,
    NoSuchName { index: int },
    Failed,
    Passed,
}

/// The outcome of the check of a response.
pub open spec fn response_check(
    expected_version: Version,
    expected_request_id: i32,
    version: Version,
    pdu: Pdu,
) -> ResponseCheck {
    if version != expected_version {
        ResponseCheck::WrongVersion
    } else if pdu.request_id != expected_request_id {
        ResponseCheck::WrongRequestId
    } else if pdu.error_status == 0 {
        ResponseCheck::Passed
    } else if version == Version::V1 && pdu.error_status == 2 && 1 <= pdu.error_index
        <= pdu.varbinds@.len() {
        ResponseCheck::NoSuchName { index: pdu.error_index as int }
    } else {
        ResponseCheck::Failed
    }
}

/// Checks a response against its request and gives its variable bindings.
///
/// The version and the request-id must be those of the request. Under v1 a
/// response with the status `noSuchName` at a binding is given as the
/// bindings of the response with `NoSuchObject` as the value of that
/// binding, as a v2c agent would answer. Any other status but `noError` is
/// a protocol error.
pub fn check_response(
    expected_version: Version,
    expected_request_id: i32,
    version: Version,
    pdu: &Pdu,
    target: Option<SocketAddress>,
) -> (r: Result<Vec<VarBind>>)
    ensures
        match response_check(expected_version, expected_request_id, version, *pdu) {
            ResponseCheck::WrongVersion => r matches Err(e) && e == (Error::VersionMismatch {
                expected: expected_version,
                actual: version,
            }),
            ResponseCheck::WrongRequestId => r matches Err(e) && e == (Error::RequestIdMismatch {
                expected: expected_request_id,
                actual: pdu.request_id,
            }),
            ResponseCheck::Passed => r matches Ok(list) && views(list@) == views(pdu.varbinds@),
            ResponseCheck::NoSuchName { index } => r matches Ok(list) && views(list@) == views(
                pdu.varbinds@,
            ).update(
                index - 1,
                VarBindView { oid: pdu.varbinds@[index - 1].oid@, value: ValueView::NoSuchObject },
            ),
            ResponseCheck::Failed => r matches Err(Error::Snmp { target: t, status, index, oid })
                && t == target && status == ErrorStatus::from_code(pdu.error_status) && index as int
                == (if pdu.error_index < 0 {
                0
            } else {
                pdu.error_index as int
            }) && (match oid {
                Some(o) => oid_at(pdu.varbinds@, pdu.error_index as int) == Some(o@),
                None => oid_at(pdu.varbinds@, pdu.error_index as int) is None,
            }),
        },
{
    if version.as_i32() != expected_version.as_i32() {
        return Err(Error::VersionMismatch { expected: expected_version, actual: version });
    }
    if pdu.request_id != expected_request_id {
        return Err(
            Error::RequestIdMismatch { expected: expected_request_id, actual: pdu.request_id },
        );
    }
    if pdu.error_status == 0 {
        return Ok(duplicate_varbinds(&pdu.varbinds));
    }
    let n = pdu.varbinds.len();
    let names_binding = pdu.error_index >= 1 && (pdu.error_index as usize) <= n;
    let v1 = match version {
        Version::V1 => true,
        _ => false,
    };
    if v1 && pdu.error_status == 2 && names_binding {
        let at = (pdu.error_index - 1) as usize;
        let mut list = duplicate_varbinds(&pdu.varbinds);
        let ghost before = views(list@);
        proof {
            assert(views(list@).len() == list@.len());
            assert(views(pdu.varbinds@).len() == n);
            assert(before[at as int] == pdu.varbinds@[at as int]@);
        }
        let oid = list[at].oid.duplicate();
        list.set(at, VarBind { oid, value: Value::NoSuchObject });
        proof {
            assert(views(list@) =~= views(pdu.varbinds@).update(
                at as int,
                VarBindView { oid: pdu.varbinds@[at as int].oid@, value: ValueView::NoSuchObject },
            ));
        }
        return Ok(list);
    }
    let oid = if names_binding {
        Some(pdu.varbinds[(pdu.error_index - 1) as usize].oid.duplicate())
    } else {
        None
    };
    let index: u32 = if pdu.error_index < 0 {
        0
    } else {
        pdu.error_index as u32
    };
    Err(Error::Snmp { target, status: ErrorStatus::from_i32(pdu.error_status), index, oid })
}

/// Whether a v3 request is sent once more after the fault that a report
/// stands for: a peer that does not know the engine id, or finds the
/// message outside its time window, is discovered anew, once; any other
/// fault, and a second fault of these, goes to the caller.
pub fn discover_again(fault: &Error, discovered_again: bool) -> (r: bool)
    ensures
        r == (!discovered_again && (*fault is UnknownEngineId || *fault is NotInTimeWindow)),
{
    if discovered_again {
        return false;
    }
    match fault {
        Error::UnknownEngineId { .. } => true,
        Error::NotInTimeWindow { .. } => true,
        _ => false,
    }
}

} // verus!
