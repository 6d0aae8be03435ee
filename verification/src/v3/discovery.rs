//! Engine discovery: the request by which a client asks a peer for its
//! engine, and the reports by which an agent answers a message that it
//! cannot accept.

use vstd::prelude::*;

use super::engine::{is_report, usm_stats, Report, DEFAULT_MSG_MAX_SIZE};
use super::message::{
    MsgFlags, MsgGlobalData, ScopedData, ScopedDataView, ScopedPdu, ScopedPduView, V3Message,
    V3MessageView, SECURITY_MODEL_USM,
};
use super::transform::clamp31;
use super::usm::{UsmSecurityParams, UsmView};
use crate::pdu::{Pdu, PduType, PduView};
use crate::value::{Value, ValueView};
use crate::varbind::{VarBind, VarBindView};

verus! {

/// The header of a message without security, for the User-based Security
/// Model, with the largest message size.
pub open spec fn plain_header(msg_id: i32, reportable: bool) -> MsgGlobalData {
    MsgGlobalData {
        msg_id,
        msg_max_size: DEFAULT_MSG_MAX_SIZE as i32,
        msg_flags: MsgFlags { reportable, auth: false, privacy: false },
        msg_security_model: SECURITY_MODEL_USM,
    }
}

/// The discovery request: no security, no engine, no user, and a GET
/// without bindings in an empty context. It asks for a report.
pub open spec fn discovery_request_view(msg_id: i32, request_id: i32) -> V3MessageView {
    V3MessageView {
        global_data: plain_header(msg_id, true),
        security_params: UsmView {
            engine_id: Seq::empty(),
            engine_boots: 0,
            engine_time: 0,
            user_name: Seq::empty(),
            auth_params: Seq::empty(),
            priv_params: Seq::empty(),
        },
        data: ScopedDataView::Plaintext(
            ScopedPduView {
                context_engine_id: Seq::empty(),
                context_name: Seq::empty(),
                pdu: PduView {
                    pdu_type: PduType::GetRequest,
                    request_id,
                    error_status: 0,
                    error_index: 0,
                    varbinds: Seq::empty(),
                },
            },
        ),
    }
}

/// The message by which a client asks a peer for its engine.
pub fn discovery_request(msg_id: i32, request_id: i32) -> (r: V3Message)
    ensures
        r@ == discovery_request_view(msg_id, request_id),
{
    let pdu = Pdu::new(PduType::GetRequest, request_id, Vec::new());
    let r = V3Message {
        global_data: MsgGlobalData {
            msg_id,
            msg_max_size: DEFAULT_MSG_MAX_SIZE as i32,
            msg_flags: MsgFlags { reportable: true, auth: false, privacy: false },
            msg_security_model: SECURITY_MODEL_USM,
        },
        security_params: UsmSecurityParams::empty(),
        data: ScopedData::Plaintext(ScopedPdu::new(Vec::new(), Vec::new(), pdu)),
    };
    proof {
        assert(r@.data->Plaintext_0.pdu.varbinds =~= Seq::empty());
    }
    r
}

/// A report of an engine: no security and no user; the id, boots and time
/// of the engine; and a Report PDU in the context of the engine that binds
/// the counter of the report to its count. It asks for no report in turn.
pub open spec fn report_view(
    report: Report,
    count: u32,
    msg_id: i32,
    request_id: i32,
    engine_id: Seq<u8>,
    boots: u32,
    time: u32,
) -> V3MessageView {
    V3MessageView {
        global_data: plain_header(msg_id, false),
        security_params: UsmView {
            engine_id,
            engine_boots: clamp31(boots),
            engine_time: clamp31(time),
            user_name: Seq::empty(),
            auth_params: Seq::empty(),
            priv_params: Seq::empty(),
        },
        data: ScopedDataView::Plaintext(
            ScopedPduView {
                context_engine_id: engine_id,
                context_name: Seq::empty(),
                pdu: PduView {
                    pdu_type: PduType::Report,
                    request_id,
                    error_status: 0,
                    error_index: 0,
                    varbinds: seq![
                        VarBindView {
                            oid: usm_stats(report.number()),
                            value: ValueView::Counter32(count),
                        },
                    ],
                },
            },
        ),
    }
}

/// A number of at most 31 bits as a signed number.
fn to_signed31(n: u32) -> (r: i32)
    ensures
        r == clamp31(n),
{
    if n > 0x7FFF_FFFF {
        0x7FFF_FFFF
    } else {
        n as i32
    }
}

/// The report by which an engine answers a message that it cannot accept.
/// The answer to a discovery request is the report of an unknown engine id.
pub fn report_message(
    report: Report,
    count: u32,
    msg_id: i32,
    request_id: i32,
    engine_id: &[u8],
    boots: u32,
    time: u32,
) -> (r: V3Message)
    ensures
        r@ == report_view(report, count, msg_id, request_id, engine_id@, boots, time),
        r.data matches ScopedData::Plaintext(scoped) && is_report(scoped.pdu, report),
{
    let mut varbinds: Vec<VarBind> = Vec::new();
    varbinds.push(VarBind::new(report.oid(), Value::Counter32(count)));
    let pdu = Pdu::new(PduType::Report, request_id, varbinds);
    let engine = vstd::slice::slice_to_vec(engine_id);
    let context = vstd::slice::slice_to_vec(engine_id);
    let mut security_params = UsmSecurityParams::empty();
    security_params.engine_id = engine;
    security_params.engine_boots = to_signed31(boots);
    security_params.engine_time = to_signed31(time);
    let scoped = ScopedPdu::new(context, Vec::new(), pdu);
    proof {
        assert(scoped.pdu.varbinds@[0].oid@ == usm_stats(report.number()));
        assert(scoped@.pdu.varbinds =~= seq![
            VarBindView {
                oid: usm_stats(report.number()),
                value: ValueView::Counter32(count),
            },
        ]);
    }
    V3Message {
        global_data: MsgGlobalData {
            msg_id,
            msg_max_size: DEFAULT_MSG_MAX_SIZE as i32,
            msg_flags: MsgFlags { reportable: false, auth: false, privacy: false },
            msg_security_model: SECURITY_MODEL_USM,
        },
        security_params,
        data: ScopedData::Plaintext(scoped),
    }
}

} // verus!
