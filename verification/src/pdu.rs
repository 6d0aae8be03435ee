//! Protocol data units: the request, response, trap and report envelopes.

use vstd::prelude::*;

use crate::ber::decode::{
    lemma_integer_element_roundtrip_at, lemma_parse_integer_shape, lemma_parse_tlv, parse_element,
    parse_integer, Decoder,
};
use crate::ber::encode::{int_content, tlv, EncodeBuf};
use crate::ber::length::MAX_LENGTH;
use crate::ber::tag;
use crate::error::{DecodeErrorKind, Error, Result};
use crate::oid::Parsed;
use crate::varbind::{
    decode_varbind_list,
    encode_varbind_list,
    lemma_tlv_len,
    lemma_varbind_list_roundtrip_at,
    parse_varbind_list,
    varbind_list_ber,
    varbinds_round_trip,
    views,
    VarBind,
    VarBindView,
};

verus! {

/// The kind of a PDU.
#[derive(Debug, Clone, Copy, PartialEq, Eq, Hash, Structural)]
pub enum PduType {
    GetRequest,
    GetNextRequest,
    Response,
    SetRequest,
    TrapV1,
    GetBulkRequest,
    InformRequest,
    TrapV2,
    Report,
}

impl PduType {
    /// The tag that stands for the PDU type on the wire.
    pub open spec fn spec_tag(self) -> u8 {
        match self {
            PduType::GetRequest => tag::pdu::GET_REQUEST,
            PduType::GetNextRequest => tag::pdu::GET_NEXT_REQUEST,
            PduType::Response => tag::pdu::RESPONSE,
            PduType::SetRequest => tag::pdu::SET_REQUEST,
            PduType::TrapV1 => tag::pdu::TRAP_V1,
            PduType::GetBulkRequest => tag::pdu::GET_BULK_REQUEST,
            PduType::InformRequest => tag::pdu::INFORM_REQUEST,
            PduType::TrapV2 => tag::pdu::TRAP_V2,
            PduType::Report => tag::pdu::REPORT,
        }
    }

    /// The PDU type that a tag stands for, if it stands for one.
    pub open spec fn spec_from_tag(t: u8) -> Option<PduType> {
        if t == tag::pdu::GET_REQUEST {
            Some(PduType::GetRequest)
        } else if t == tag::pdu::GET_NEXT_REQUEST {
            Some(PduType::GetNextRequest)
        } else if t == tag::pdu::RESPONSE {
            Some(PduType::Response)
        } else if t == tag::pdu::SET_REQUEST {
            Some(PduType::SetRequest)
        } else if t == tag::pdu::TRAP_V1 {
            Some(PduType::TrapV1)
        } else if t == tag::pdu::GET_BULK_REQUEST {
            Some(PduType::GetBulkRequest)
        } else if t == tag::pdu::INFORM_REQUEST {
            Some(PduType::InformRequest)
        } else if t == tag::pdu::TRAP_V2 {
            Some(PduType::TrapV2)
        } else if t == tag::pdu::REPORT {
            Some(PduType::Report)
        } else {
            None
        }
    }

    /// The tag of the PDU type.
    pub fn tag(self) -> (r: u8)
        ensures
            r == self.spec_tag(),
            PduType::spec_from_tag(r) == Some(self),
    {
        match self {
            PduType::GetRequest => tag::pdu::GET_REQUEST,
            PduType::GetNextRequest => tag::pdu::GET_NEXT_REQUEST,
            PduType::Response => tag::pdu::RESPONSE,
            PduType::SetRequest => tag::pdu::SET_REQUEST,
            PduType::TrapV1 => tag::pdu::TRAP_V1,
            PduType::GetBulkRequest => tag::pdu::GET_BULK_REQUEST,
            PduType::InformRequest => tag::pdu::INFORM_REQUEST,
            PduType::TrapV2 => tag::pdu::TRAP_V2,
            PduType::Report => tag::pdu::REPORT,
        }
    }

    /// The PDU type of a tag.
    pub fn from_tag(t: u8) -> (r: Option<PduType>)
        ensures
            r == PduType::spec_from_tag(t),
            r matches Some(p) ==> p.spec_tag() == t,
    {
        if t == tag::pdu::GET_REQUEST {
            Some(PduType::GetRequest)
        } else if t == tag::pdu::GET_NEXT_REQUEST {
            Some(PduType::GetNextRequest)
        } else if t == tag::pdu::RESPONSE {
            Some(PduType::Response)
        } else if t == tag::pdu::SET_REQUEST {
            Some(PduType::SetRequest)
        } else if t == tag::pdu::TRAP_V1 {
            Some(PduType::TrapV1)
        } else if t == tag::pdu::GET_BULK_REQUEST {
            Some(PduType::GetBulkRequest)
        } else if t == tag::pdu::INFORM_REQUEST {
            Some(PduType::InformRequest)
        } else if t == tag::pdu::TRAP_V2 {
            Some(PduType::TrapV2)
        } else if t == tag::pdu::REPORT {
            Some(PduType::Report)
        } else {
            None
        }
    }
}

/// One SNMP request, response, trap or report.
///
/// In a GETBULK request the fields `error_status` and `error_index` hold
/// `non_repeaters` and `max_repetitions`.
#[derive(Debug, Clone, PartialEq, Eq)]
pub struct Pdu {
    pub pdu_type: PduType,
    pub request_id: i32,
    pub error_status: i32,
    pub error_index: i32,
    pub varbinds: Vec<VarBind>,
}

/// What a PDU is, apart from how it is stored.
pub struct PduView {
    pub pdu_type: PduType,
    pub request_id: i32,
    pub error_status: i32,
    pub error_index: i32,
    pub varbinds: Seq<VarBindView>,
}

impl View for Pdu {
    type V = PduView;

    open spec fn view(&self) -> PduView {
        PduView {
            pdu_type: self.pdu_type,
            request_id: self.request_id,
            error_status: self.error_status,
            error_index: self.error_index,
            varbinds: views(self.varbinds@),
        }
    }
}

/// The BER element of a signed 32-bit number.
pub open spec fn integer_ber(v: i32) -> Seq<u8> {
    tlv(tag::universal::INTEGER, int_content(v as int))
}

/// The content of the element of a PDU: request-id, error-status,
/// error-index and the list of variable bindings.
pub open spec fn pdu_content(p: PduView) -> Seq<u8> {
    integer_ber(p.request_id) + integer_ber(p.error_status) + integer_ber(p.error_index)
        + varbind_list_ber(p.varbinds)
}

/// The BER element of a PDU, under the tag of its type.
pub open spec fn pdu_ber(p: PduView) -> Seq<u8> {
    tlv(p.pdu_type.spec_tag(), pdu_content(p))
}

/// Why the fields of a PDU are refused, or `None` when they are in order.
/// In a GETBULK request neither count may be negative; in any other PDU the
/// error-index lies between 0 and the number of variable bindings.
pub open spec fn pdu_fault(p: PduView) -> Option<DecodeErrorKind> {
    if p.pdu_type == PduType::GetBulkRequest {
        if p.error_status < 0 {
            Some(DecodeErrorKind::NegativeNonRepeaters { value: p.error_status })
        } else if p.error_index < 0 {
            Some(DecodeErrorKind::NegativeMaxRepetitions { value: p.error_index })
        } else {
            None
        }
    } else if p.error_index < 0 {
        Some(DecodeErrorKind::NegativeErrorIndex { value: p.error_index })
    } else if p.error_index > p.varbinds.len() {
        Some(
            DecodeErrorKind::ErrorIndexOutOfBounds {
                index: p.error_index,
                varbind_count: p.varbinds.len() as usize,
            },
        )
    } else {
        None
    }
}

/// The fields of a PDU are in order.
pub open spec fn pdu_valid(p: PduView) -> bool {
    pdu_fault(p) is None
}

/// The PDU at position `i`. The tag names the type; the content holds three
/// INTEGERs and the list of variable bindings; what follows the list inside
/// the element is passed over. A fault inside the content is reported at its
/// place in the data; fields that are refused are reported at the element of
/// the field: `non_repeaters` at the second INTEGER, the others at the third.
#[verifier::opaque]
pub open spec fn parse_pdu(s: Seq<u8>, i: int) -> Parsed<PduView> {
    if i < 0 || i >= s.len() {
        Parsed::Failed { at: i, kind: DecodeErrorKind::TruncatedData }
    } else if PduType::spec_from_tag(s[i]) is None {
        Parsed::Failed { at: i, kind: DecodeErrorKind::UnknownPduType(s[i]) }
    } else {
        match parse_element(s, i, s[i]) {
            Parsed::Failed { at, kind } => Parsed::Failed { at, kind },
            Parsed::Value { value: c, next } => {
                let start = next - c.len();
                match parse_integer(c, 0) {
                    Parsed::Failed { at, kind } => Parsed::Failed { at: start + at, kind },
                    Parsed::Value { value: request_id, next: j1 } => match parse_integer(c, j1) {
                        Parsed::Failed { at, kind } => Parsed::Failed { at: start + at, kind },
                        Parsed::Value { value: error_status, next: j2 } => match parse_integer(
                            c,
                            j2,
                        ) {
                            Parsed::Failed { at, kind } => Parsed::Failed { at: start + at, kind },
                            Parsed::Value { value: error_index, next: j3 } => match parse_varbind_list(
                                c,
                                j3,
                            ) {
                                Parsed::Failed { at, kind } => Parsed::Failed {
                                    at: start + at,
                                    kind,
                                },
                                Parsed::Value { value: varbinds, next: _ } => {
                                    let p = PduView {
                                        pdu_type: PduType::spec_from_tag(s[i])->0,
                                        request_id: request_id as i32,
                                        error_status: error_status as i32,
                                        error_index: error_index as i32,
                                        varbinds,
                                    };
                                    match pdu_fault(p) {
                                        Some(kind) => Parsed::Failed {
                                            at: start + (if kind is NegativeNonRepeaters {
                                                j1
                                            } else {
                                                j2
                                            }),
                                            kind,
                                        },
                                        None => Parsed::Value { value: p, next },
                                    }
                                },
                            },
                        },
                    },
                }
            },
        }
    }
}

/// The PDUs that decoding gives back from their encoding: the fields are in
/// order, the variable bindings are given back, and the content is no longer
/// than the decoder accepts.
pub open spec fn pdu_round_trips(p: PduView) -> bool {
    &&& pdu_valid(p)
    &&& varbinds_round_trip(p.varbinds)
    &&& pdu_content(p).len() <= MAX_LENGTH
}

/// Decoding the encoding of a PDU gives the PDU back, wherever the encoding
/// stands in the data.
pub proof fn lemma_pdu_roundtrip_at(s: Seq<u8>, i: int, p: PduView)
    requires
        pdu_round_trips(p),
        0 <= i,
        i + pdu_ber(p).len() <= s.len(),
        s.subrange(i, i + pdu_ber(p).len()) == pdu_ber(p),
    ensures
        parse_pdu(s, i) == (Parsed::Value { value: p, next: i + pdu_ber(p).len() }),
{
    reveal(parse_pdu);
    let t = p.pdu_type.spec_tag();
    let c = pdu_content(p);
    lemma_tlv_len(t, c);
    assert(s[i] == t) by {
        assert(s.subrange(i, i + pdu_ber(p).len())[0] == s[i]);
    }
    lemma_parse_tlv(s, i, t, c);
    let a = integer_ber(p.request_id);
    let b = integer_ber(p.error_status);
    let d = integer_ber(p.error_index);
    let l = varbind_list_ber(p.varbinds);
    let j1 = a.len() as int;
    let j2 = j1 + b.len();
    let j3 = j2 + d.len();
    assert(c.len() == j3 + l.len());
    assert(c.subrange(0, j1) =~= a);
    assert(c.subrange(j1, j2) =~= b);
    assert(c.subrange(j2, j3) =~= d);
    assert(c.subrange(j3, j3 + l.len()) =~= l);
    lemma_integer_element_roundtrip_at(c, 0, p.request_id);
    lemma_integer_element_roundtrip_at(c, j1, p.error_status);
    lemma_integer_element_roundtrip_at(c, j2, p.error_index);
    lemma_varbind_list_roundtrip_at(c, j3, p.varbinds);
}

/// For every PDU that can stand on the wire, decoding its encoding gives the
/// PDU back and reads the whole encoding.
pub proof fn lemma_pdu_roundtrip(p: PduView)
    requires
        pdu_round_trips(p),
    ensures
        parse_pdu(pdu_ber(p), 0) == (Parsed::Value { value: p, next: pdu_ber(p).len() as int }),
{
    let s = pdu_ber(p);
    assert(s.subrange(0, s.len() as int) =~= s);
    lemma_pdu_roundtrip_at(s, 0, p);
}

impl Pdu {
    /// A request of the given type without error fields.
    pub fn new(pdu_type: PduType, request_id: i32, varbinds: Vec<VarBind>) -> (r: Pdu)
        ensures
            r.pdu_type == pdu_type,
            r.request_id == request_id,
            r.error_status == 0,
            r.error_index == 0,
            r.varbinds == varbinds,
    {
        Pdu { pdu_type, request_id, error_status: 0, error_index: 0, varbinds }
    }

    /// A GETBULK request.
    pub fn get_bulk(
        request_id: i32,
        non_repeaters: i32,
        max_repetitions: i32,
        varbinds: Vec<VarBind>,
    ) -> (r: Pdu)
        ensures
            r.pdu_type == PduType::GetBulkRequest,
            r.request_id == request_id,
            r.error_status == non_repeaters,
            r.error_index == max_repetitions,
            r.varbinds == varbinds,
    {
        Pdu {
            pdu_type: PduType::GetBulkRequest,
            request_id,
            error_status: non_repeaters,
            error_index: max_repetitions,
            varbinds,
        }
    }

    /// Encode to BER: the element of the PDU comes to stand in front of what
    /// the buffer holds.
    pub fn encode(&self, buf: &mut EncodeBuf)
        ensures
            final(buf)@ == pdu_ber(self@) + old(buf)@,
    {
        let start = buf.len();
        encode_varbind_list(buf, self.varbinds.as_slice());
        buf.push_integer(self.error_index);
        buf.push_integer(self.error_status);
        buf.push_integer(self.request_id);
        proof {
            assert(buf@ =~= pdu_content(self@) + old(buf)@);
            assert(buf@.subrange(0, buf@.len() - start) =~= pdu_content(self@));
            assert(buf@.subrange(buf@.len() - start, buf@.len() as int) =~= old(buf)@);
        }
        buf.wrap(self.pdu_type.tag(), start);
    }

    /// Decode from BER.
    pub fn decode(decoder: &mut Decoder) -> (r: Result<Pdu>)
        ensures
            match parse_pdu(old(decoder).data(), old(decoder).position()) {
                Parsed::Value { value, next } => r matches Ok(p) && p@ == value
                    && final(decoder).moved(*old(decoder), next),
                Parsed::Failed { at, kind } => r matches Err(e) && e == old(decoder).fault(at, kind)
                    && final(decoder).moved(*old(decoder), old(decoder).position()),
            },
    {
        proof {
            reveal(parse_pdu);
        }
        let begin = decoder.offset();
        let t = match decoder.peek_tag() {
            None => {
                return Err(Error::decode(begin, DecodeErrorKind::TruncatedData));
            },
            Some(t) => t,
        };
        let pdu_type = match PduType::from_tag(t) {
            None => {
                return Err(Error::decode(begin, DecodeErrorKind::UnknownPduType(t)));
            },
            Some(p) => p,
        };
        let mut probe = decoder.fork();
        let mut body = match probe.read_constructed(t) {
            Err(e) => {
                return Err(e);
            },
            Ok(body) => body,
        };
        let ghost c = body.data();
        let request_id = match body.read_integer() {
            Err(e) => {
                return Err(e);
            },
            Ok(v) => v,
        };
        let at_status = body.offset();
        proof {
            lemma_parse_integer_shape(c, 0);
        }
        let error_status = match body.read_integer() {
            Err(e) => {
                return Err(e);
            },
            Ok(v) => v,
        };
        let at_index = body.offset();
        let error_index = match body.read_integer() {
            Err(e) => {
                return Err(e);
            },
            Ok(v) => v,
        };
        let varbinds = match decode_varbind_list(&mut body) {
            Err(e) => {
                return Err(e);
            },
            Ok(v) => v,
        };
        let is_bulk = match pdu_type {
            PduType::GetBulkRequest => true,
            _ => false,
        };
        if is_bulk {
            if error_status < 0 {
                return Err(
                    Error::decode(
                        at_status,
                        DecodeErrorKind::NegativeNonRepeaters { value: error_status },
                    ),
                );
            }
            if error_index < 0 {
                return Err(
                    Error::decode(
                        at_index,
                        DecodeErrorKind::NegativeMaxRepetitions { value: error_index },
                    ),
                );
            }
        } else {
            if error_index < 0 {
                return Err(
                    Error::decode(at_index, DecodeErrorKind::NegativeErrorIndex { value: error_index }),
                );
            }
            if error_index as usize > varbinds.len() {
                return Err(
                    Error::decode(
                        at_index,
                        DecodeErrorKind::ErrorIndexOutOfBounds {
                            index: error_index,
                            varbind_count: varbinds.len(),
                        },
                    ),
                );
            }
        }
        decoder.advance_to(&probe);
        Ok(Pdu { pdu_type, request_id, error_status, error_index, varbinds })
    }

    /// A copy of the PDU.
    pub fn duplicate(&self) -> (r: Pdu)
        ensures
            r@ == self@,
    {
        Pdu {
            pdu_type: self.pdu_type,
            request_id: self.request_id,
            error_status: self.error_status,
            error_index: self.error_index,
            varbinds: duplicate_varbinds(&self.varbinds),
        }
    }
}

/// A copy of a list of variable bindings.
pub fn duplicate_varbinds(varbinds: &Vec<VarBind>) -> (r: Vec<VarBind>)
    ensures
        views(r@) == views(varbinds@),
{
    let n = varbinds.len();
    let mut out: Vec<VarBind> = Vec::with_capacity(n);
    let mut k: usize = 0;
    while k < n
        invariant
            k <= n,
            n == varbinds@.len(),
            out@.len() == k,
            forall|j: int| 0 <= j < k ==> out@[j]@ == varbinds@[j]@,
        decreases n - k,
    {
        out.push(varbinds[k].duplicate());
        k += 1;
    }
    proof {
        assert(views(out@) =~= views(varbinds@));
    }
    out
}

} // verus!
