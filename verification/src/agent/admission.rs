//! Admission of a v3 message at an agent: which messages are handed to the
//! handlers, which are answered with a report, and which are dropped.

use vstd::prelude::*;

use crate::error::Error;
use crate::message::SecurityLevel;
use crate::octets::same_octets;
use crate::oid::Parsed;
use crate::v3::engine::{EngineState, Report};
use crate::v3::message::{parse_v3, MsgFlags, V3Message, V3MessageView};
use crate::v3::transform::{inbound, inbound_auth_fault, inbound_scoped, Inbound, UsmUser};

verus! {

/// What an agent makes of a v3 message.
#[derive(Debug)]
pub enum Admission {
    /// The message passed: the request of the user with the given number,
    /// at the given level.
    Accept { inbound: Inbound, user: usize, level: SecurityLevel },
    /// The message is answered with a report, under its msgID.
    Reject { report: Report, msg_id: i32 },
    /// The message is dropped without an answer.
    Ignore,
}

/// What an admission is, apart from how it is stored.
pub enum AdmissionView {
    Accept { message: V3MessageView, user: int, level: SecurityLevel },
    Reject { report: Report, msg_id: i32 },
    Ignore,
}

/// The report that answers a message which the inbound transform refused:
/// a message outside the time window, one that failed authentication, one
/// that failed decryption. Any other fault has no report.
pub open spec fn report_for(e: Error) -> Option<Report> {
    match e {
        Error::NotInTimeWindow { .. } => Some(Report::NotInTimeWindows),
        Error::AuthenticationFailed { .. } => Some(Report::WrongDigests),
        Error::DecryptionFailed { .. } => Some(Report::DecryptionErrors),
        _ => None,
    }
}

/// The report that answers a message which the inbound transform refused.
pub fn report_of_error(e: &Error) -> (r: Option<Report>)
    ensures
        r == report_for(*e),
{
    match e {
        Error::NotInTimeWindow { .. } => Some(Report::NotInTimeWindows),
        Error::AuthenticationFailed { .. } => Some(Report::WrongDigests),
        Error::DecryptionFailed { .. } => Some(Report::DecryptionErrors),
        _ => None,
    }
}

/// The number of the first user from position `from` on with the given
/// name.
pub open spec fn first_user(users: Seq<UsmUser>, name: Seq<u8>, from: int) -> Option<int>
    decreases users.len() - from,
{
    if from < 0 || from >= users.len() {
        None
    } else if users[from].user_name@ == name {
        Some(from)
    } else {
        first_user(users, name, from + 1)
    }
}

/// The number of the first user with the given name.
pub fn find_user(users: &[UsmUser], name: &[u8]) -> (r: Option<usize>)
    ensures
        match first_user(users@, name@, 0) {
            Some(k) => r == Some(k as usize) && 0 <= k < users@.len(),
            None => r is None,
        },
{
    let n = users.len();
    let mut k: usize = 0;
    while k < n
        invariant
            k <= n,
            n == users@.len(),
            first_user(users@, name@, 0) == first_user(users@, name@, k as int),
        decreases n - k,
    {
        if same_octets(users[k].user_name.as_slice(), name) {
            return Some(k);
        }
        k += 1;
    }
    None
}

/// A report is sent only in answer to a message that asks for reports.
pub open spec fn rejected(flags: MsgFlags, msg_id: i32, report: Report) -> AdmissionView {
    if flags.reportable {
        AdmissionView::Reject { report, msg_id }
    } else {
        AdmissionView::Ignore
    }
}

/// What an agent with the given engine and users makes of the octets of a
/// message at the time `now`. A message that does not decode is dropped. A
/// message for another engine, which a discovery request is, reports an
/// unknown engine id; a message of no known user reports an unknown user
/// name; a message at a level for which the user has no key reports an
/// unsupported level. Then the inbound transform decides: what it refuses
/// is reported where the fault has a report and dropped where it has none,
/// and what it accepts is the request.
pub open spec fn admission(bytes: Seq<u8>, engine: EngineState, users: Seq<UsmUser>, now: u64) -> AdmissionView {
    match parse_v3(bytes) {
        Parsed::Failed { .. } => AdmissionView::Ignore,
        Parsed::Value { value: pair, .. } => {
            let m = pair.0;
            let flags = m.global_data.msg_flags;
            let msg_id = m.global_data.msg_id;
            if m.security_params.engine_id != engine.engine_id@ {
                rejected(flags, msg_id, Report::UnknownEngineIds)
            } else {
                match first_user(users, m.security_params.user_name, 0) {
                    None => rejected(flags, msg_id, Report::UnknownUserNames),
                    Some(k) => if flags.privacy && !flags.auth {
                        AdmissionView::Ignore
                    } else if (flags.auth && users[k].auth_key is None) || (flags.privacy
                        && users[k].priv_key is None) {
                        rejected(flags, msg_id, Report::UnsupportedSecLevels)
                    } else {
                        match inbound_auth_fault(bytes, m, pair.1, users[k], Some(engine), now) {
                            Some(fault) => after_fault(flags, msg_id, fault),
                            None => match inbound_scoped(m, users[k]) {
                                Err(fault) => after_fault(flags, msg_id, fault),
                                Ok(sp) => AdmissionView::Accept {
                                    message: V3MessageView {
                                        global_data: m.global_data,
                                        security_params: m.security_params,
                                        data: crate::v3::message::ScopedDataView::Plaintext(sp),
                                    },
                                    user: k,
                                    level: if flags.privacy {
                                        SecurityLevel::AuthPriv
                                    } else if flags.auth {
                                        SecurityLevel::AuthNoPriv
                                    } else {
                                        SecurityLevel::NoAuthNoPriv
                                    },
                                },
                            },
                        }
                    },
                }
            }
        },
    }
}

/// What follows a fault of the inbound transform: its report, or nothing.
pub open spec fn after_fault(flags: MsgFlags, msg_id: i32, fault: Error) -> AdmissionView {
    match report_for(fault) {
        Some(report) => rejected(flags, msg_id, report),
        None => AdmissionView::Ignore,
    }
}

impl View for Admission {
    type V = AdmissionView;

    open spec fn view(&self) -> AdmissionView {
        match self {
            Admission::Accept { inbound, user, level } => AdmissionView::Accept {
                message: V3MessageView {
                    global_data: inbound.global_data,
                    security_params: inbound.security_params@,
                    data: crate::v3::message::ScopedDataView::Plaintext(inbound.scoped_pdu@),
                },
                user: *user as int,
                level: *level,
            },
            Admission::Reject { report, msg_id } => AdmissionView::Reject {
                report: *report,
                msg_id: *msg_id,
            },
            Admission::Ignore => AdmissionView::Ignore,
        }
    }
}

/// The answer to a message that is refused with a report.
fn reject(flags: MsgFlags, msg_id: i32, report: Report) -> (r: Admission)
    ensures
        r@ == rejected(flags, msg_id, report),
{
    if flags.reportable {
        Admission::Reject { report, msg_id }
    } else {
        Admission::Ignore
    }
}

/// Decides what an agent with the given engine and users makes of a
/// message.
pub fn receive(bytes: &[u8], engine: &EngineState, users: &[UsmUser], now: u64) -> (r: Admission)
    ensures
        r@ == admission(bytes@, *engine, users@, now),
{
    let (message, _) = match V3Message::decode(bytes) {
        Err(_) => {
            return Admission::Ignore;
        },
        Ok(pair) => pair,
    };
    let flags = message.global_data.msg_flags;
    let msg_id = message.global_data.msg_id;
    if !same_octets(message.security_params.engine_id.as_slice(), engine.engine_id.as_slice()) {
        return reject(flags, msg_id, Report::UnknownEngineIds);
    }
    let k = match find_user(users, message.security_params.user_name.as_slice()) {
        None => {
            return reject(flags, msg_id, Report::UnknownUserNames);
        },
        Some(k) => k,
    };
    let level = match SecurityLevel::from_flags(flags.auth, flags.privacy) {
        None => {
            return Admission::Ignore;
        },
        Some(l) => l,
    };
    let user = &users[k];
    if (flags.auth && user.auth_key.is_none()) || (flags.privacy && user.priv_key.is_none()) {
        return reject(flags, msg_id, Report::UnsupportedSecLevels);
    }
    match inbound(bytes, user, Some(engine), now) {
        Err(e) => match report_of_error(&e) {
            Some(report) => reject(flags, msg_id, report),
            None => Admission::Ignore,
        },
        Ok(inbound) => Admission::Accept { inbound, user: k, level },
    }
}

} // verus!
