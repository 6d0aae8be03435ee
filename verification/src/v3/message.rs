//! The SNMPv3 message (RFC 3412): global header, security parameters, and
//! the scoped PDU, in the clear or encrypted.

use vstd::prelude::*;

use super::usm::{
    octets_ber, parse_usm, usm_ber, usm_round_trips, usm_tail, UsmSecurityParams, UsmView,
};
use crate::ber::decode::{
    lemma_integer_element_roundtrip_at,
    lemma_parse_integer_shape,
    lemma_parse_tlv,
    parse_element,
    parse_integer,
    parse_octet_string,
    Decoder,
};
use crate::ber::encode::{tlv, EncodeBuf};
use crate::ber::length::MAX_LENGTH;
use crate::ber::tag;
use crate::error::{DecodeErrorKind, Error, Result};
use crate::message::SecurityLevel;
use crate::oid::Parsed;
use crate::pdu::{
    integer_ber, lemma_pdu_roundtrip_at, parse_pdu, pdu_ber, pdu_round_trips, Pdu, PduView,
};
use crate::varbind::lemma_tlv_len;

verus! {

/// The least `msgMaxSize` that RFC 3412 allows.
pub const MIN_MSG_MAX_SIZE: i32 = 484;

/// The number of the User-based Security Model.
pub const SECURITY_MODEL_USM: i32 = 3;

/// The flags of a v3 message.
#[derive(Debug, Clone, Copy, PartialEq, Eq, Structural)]
pub struct MsgFlags {
    /// A Report PDU may be sent in answer.
    pub reportable: bool,
    /// The message is authenticated.
    pub auth: bool,
    /// The scoped PDU is encrypted.
    pub privacy: bool,
}

/// The octet that stands for the flags: 1 for auth, 2 for priv, 4 for
/// reportable.
pub open spec fn flags_octet(f: MsgFlags) -> u8 {
    ((if f.auth {
        1int
    } else {
        0int
    }) + (if f.privacy {
        2int
    } else {
        0int
    }) + (if f.reportable {
        4int
    } else {
        0int
    })) as u8
}

/// The flags that an octet stands for; bits above the third are passed over.
pub open spec fn flags_of(b: u8) -> MsgFlags {
    MsgFlags { auth: b % 2 == 1, privacy: (b / 2) % 2 == 1, reportable: (b / 4) % 2 == 1 }
}

impl MsgFlags {
    /// The flags for a security level.
    pub fn new(level: SecurityLevel, reportable: bool) -> (r: MsgFlags)
        ensures
            r.reportable == reportable,
            r.auth == (level.rank() >= 1),
            r.privacy == (level.rank() == 2),
            r.valid(),
    {
        MsgFlags { reportable, auth: level.requires_auth(), privacy: level.requires_priv() }
    }

    /// Privacy comes only with authentication.
    pub open spec fn valid(self) -> bool {
        self.privacy ==> self.auth
    }

    /// The octet that stands for the flags.
    pub fn to_byte(self) -> (r: u8)
        ensures
            r == flags_octet(self),
            flags_of(r) == self,
    {
        let a: u8 = if self.auth {
            1
        } else {
            0
        };
        let p: u8 = if self.privacy {
            2
        } else {
            0
        };
        let q: u8 = if self.reportable {
            4
        } else {
            0
        };
        a + p + q
    }

    /// The flags that an octet stands for.
    pub fn from_byte(b: u8) -> (r: MsgFlags)
        ensures
            r == flags_of(b),
    {
        MsgFlags { auth: b % 2 == 1, privacy: (b / 2) % 2 == 1, reportable: (b / 4) % 2 == 1 }
    }

    /// The security level of the flags, or `None` for privacy without
    /// authentication.
    pub fn security_level(self) -> (r: Option<SecurityLevel>)
        ensures
            r is Some <==> self.valid(),
            r matches Some(l) ==> (l.rank() >= 1) == self.auth && (l.rank() == 2) == self.privacy,
    {
        SecurityLevel::from_flags(self.auth, self.privacy)
    }
}

/// The scoped PDU: a PDU with the context that it belongs to.
#[derive(Debug, Clone, PartialEq, Eq)]
pub struct ScopedPdu {
    pub context_engine_id: Vec<u8>,
    pub context_name: Vec<u8>,
    pub pdu: Pdu,
}

/// What a scoped PDU is, apart from how it is stored.
pub struct ScopedPduView {
    pub context_engine_id: Seq<u8>,
    pub context_name: Seq<u8>,
    pub pdu: PduView,
}

impl View for ScopedPdu {
    type V = ScopedPduView;

    open spec fn view(&self) -> ScopedPduView {
        ScopedPduView {
            context_engine_id: self.context_engine_id@,
            context_name: self.context_name@,
            pdu: self.pdu@,
        }
    }
}

/// The content of the SEQUENCE of a scoped PDU.
pub open spec fn scoped_content(sp: ScopedPduView) -> Seq<u8> {
    octets_ber(sp.context_engine_id) + octets_ber(sp.context_name) + pdu_ber(sp.pdu)
}

/// The BER element of a scoped PDU.
pub open spec fn scoped_ber(sp: ScopedPduView) -> Seq<u8> {
    tlv(tag::universal::SEQUENCE, scoped_content(sp))
}

/// The scoped PDU at position `i`. What follows the PDU inside the
/// SEQUENCE, and what follows the SEQUENCE, is passed over.
#[verifier::opaque]
pub open spec fn parse_scoped_pdu(s: Seq<u8>, i: int) -> Parsed<ScopedPduView> {
    match parse_element(s, i, tag::universal::SEQUENCE) {
        Parsed::Failed { at, kind } => Parsed::Failed { at, kind },
        Parsed::Value { value: c, next } => {
            let start = next - c.len();
            match parse_octet_string(c, 0) {
                Parsed::Failed { at, kind } => Parsed::Failed { at: start + at, kind },
                Parsed::Value { value: context_engine_id, next: j1 } => match parse_octet_string(
                    c,
                    j1,
                ) {
                    Parsed::Failed { at, kind } => Parsed::Failed { at: start + at, kind },
                    Parsed::Value { value: context_name, next: j2 } => match parse_pdu(c, j2) {
                        Parsed::Failed { at, kind } => Parsed::Failed { at: start + at, kind },
                        Parsed::Value { value: pdu, next: _ } => Parsed::Value {
                            value: ScopedPduView { context_engine_id, context_name, pdu },
                            next,
                        },
                    },
                },
            }
        },
    }
}

/// The scoped PDUs that decoding gives back from their encoding.
pub open spec fn scoped_round_trips(sp: ScopedPduView) -> bool {
    &&& sp.context_engine_id.len() <= MAX_LENGTH
    &&& sp.context_name.len() <= MAX_LENGTH
    &&& pdu_round_trips(sp.pdu)
    &&& scoped_content(sp).len() <= MAX_LENGTH
}

/// Decoding the encoding of a scoped PDU gives it back, wherever the
/// encoding stands in the data and whatever follows it.
pub proof fn lemma_scoped_roundtrip_at(s: Seq<u8>, i: int, sp: ScopedPduView)
    requires
        scoped_round_trips(sp),
        0 <= i,
        i + scoped_ber(sp).len() <= s.len(),
        s.subrange(i, i + scoped_ber(sp).len()) == scoped_ber(sp),
    ensures
        parse_scoped_pdu(s, i) == (Parsed::Value { value: sp, next: i + scoped_ber(sp).len() }),
{
    reveal(parse_scoped_pdu);
    let c = scoped_content(sp);
    lemma_parse_tlv(s, i, tag::universal::SEQUENCE, c);
    let a = octets_ber(sp.context_engine_id);
    let b = octets_ber(sp.context_name);
    let p = pdu_ber(sp.pdu);
    let j1 = a.len() as int;
    let j2 = j1 + b.len();
    assert(c.subrange(0, j1) =~= a);
    assert(c.subrange(j1, j2) =~= b);
    assert(c.subrange(j2, j2 + p.len()) =~= p);
    lemma_tlv_len(tag::universal::OCTET_STRING, sp.context_engine_id);
    lemma_tlv_len(tag::universal::OCTET_STRING, sp.context_name);
    assert(c[0] == tag::universal::OCTET_STRING) by {
        assert(c.subrange(0, j1)[0] == c[0]);
    }
    assert(c[j1] == tag::universal::OCTET_STRING) by {
        assert(c.subrange(j1, j2)[0] == c[j1]);
    }
    lemma_parse_tlv(c, 0, tag::universal::OCTET_STRING, sp.context_engine_id);
    lemma_parse_tlv(c, j1, tag::universal::OCTET_STRING, sp.context_name);
    lemma_pdu_roundtrip_at(c, j2, sp.pdu);
}

impl ScopedPdu {
    /// A scoped PDU.
    pub fn new(context_engine_id: Vec<u8>, context_name: Vec<u8>, pdu: Pdu) -> (r: ScopedPdu)
        ensures
            r.context_engine_id == context_engine_id,
            r.context_name == context_name,
            r.pdu == pdu,
    {
        ScopedPdu { context_engine_id, context_name, pdu }
    }

    /// Encode to BER: the element comes to stand in front of what the
    /// buffer holds.
    pub fn encode(&self, buf: &mut EncodeBuf)
        ensures
            final(buf)@ == scoped_ber(self@) + old(buf)@,
    {
        let start = buf.len();
        self.pdu.encode(buf);
        buf.push_octet_string(self.context_name.as_slice());
        buf.push_octet_string(self.context_engine_id.as_slice());
        proof {
            assert(buf@ =~= scoped_content(self@) + old(buf)@);
            assert(buf@.subrange(0, buf@.len() - start) =~= scoped_content(self@));
            assert(buf@.subrange(buf@.len() - start, buf@.len() as int) =~= old(buf)@);
        }
        buf.wrap(tag::universal::SEQUENCE, start);
    }

    /// The octets of the scoped PDU.
    pub fn encode_vec(&self) -> (r: Vec<u8>)
        ensures
            r@ == scoped_ber(self@),
    {
        let mut buf = EncodeBuf::new();
        self.encode(&mut buf);
        proof {
            assert(buf@ =~= scoped_ber(self@));
        }
        buf.finish_vec()
    }

    /// Decode from BER.
    pub fn decode(decoder: &mut Decoder) -> (r: Result<ScopedPdu>)
        ensures
            match parse_scoped_pdu(old(decoder).data(), old(decoder).position()) {
                Parsed::Value { value, next } => r matches Ok(sp) && sp@ == value
                    && final(decoder).moved(*old(decoder), next),
                Parsed::Failed { at, kind } => r matches Err(e) && e == old(decoder).fault(at, kind)
                    && final(decoder).moved(*old(decoder), old(decoder).position()),
            },
    {
        proof {
            reveal(parse_scoped_pdu);
        }
        let mut probe = decoder.fork();
        let mut body = match probe.read_sequence() {
            Err(e) => {
                return Err(e);
            },
            Ok(b) => b,
        };
        let context_engine_id = match body.read_octet_string() {
            Err(e) => {
                return Err(e);
            },
            Ok(v) => v,
        };
        let context_name = match body.read_octet_string() {
            Err(e) => {
                return Err(e);
            },
            Ok(v) => v,
        };
        let pdu = match Pdu::decode(&mut body) {
            Err(e) => {
                return Err(e);
            },
            Ok(p) => p,
        };
        decoder.advance_to(&probe);
        Ok(ScopedPdu { context_engine_id, context_name, pdu })
    }

    /// Decode the scoped PDU that octets hold from their start, as after
    /// decryption; what follows it is passed over.
    pub fn decode_slice(data: &[u8]) -> (r: Result<ScopedPdu>)
        ensures
            match parse_scoped_pdu(data@, 0) {
                Parsed::Value { value, next } => r matches Ok(sp) && sp@ == value,
                Parsed::Failed { at, kind } => r matches Err(e) && e == (Error::Decode {
                    offset: at as usize,
                    kind,
                }),
            },
    {
        let mut decoder = Decoder::from_slice(data);
        ScopedPdu::decode(&mut decoder)
    }
}

/// The global header of a v3 message.
#[derive(Debug, Clone, Copy, PartialEq, Eq, Structural)]
pub struct MsgGlobalData {
    /// The id of the message; between 0 and 2^31 - 1.
    pub msg_id: i32,
    /// The largest message that the sender accepts; at least 484.
    pub msg_max_size: i32,
    /// The flags.
    pub msg_flags: MsgFlags,
    /// The security model; 3 for USM.
    pub msg_security_model: i32,
}

/// The content of the SEQUENCE of the header.
pub open spec fn header_content(h: MsgGlobalData) -> Seq<u8> {
    integer_ber(h.msg_id) + integer_ber(h.msg_max_size) + octets_ber(seq![flags_octet(h.msg_flags)])
        + integer_ber(h.msg_security_model)
}

/// The BER element of the header.
pub open spec fn header_ber(h: MsgGlobalData) -> Seq<u8> {
    tlv(tag::universal::SEQUENCE, header_content(h))
}

/// Why the fields of a header are refused, or `None` when they are in
/// order: the id is not negative, the size is at least 484, privacy comes
/// with authentication, and the model is USM.
pub open spec fn header_fault(h: MsgGlobalData) -> Option<DecodeErrorKind> {
    if h.msg_id < 0 {
        Some(DecodeErrorKind::InvalidMsgId { value: h.msg_id })
    } else if h.msg_max_size < MIN_MSG_MAX_SIZE {
        Some(
            DecodeErrorKind::MsgMaxSizeTooSmall { value: h.msg_max_size, minimum: MIN_MSG_MAX_SIZE },
        )
    } else if !h.msg_flags.valid() {
        Some(DecodeErrorKind::InvalidMsgFlags)
    } else if h.msg_security_model != SECURITY_MODEL_USM {
        Some(DecodeErrorKind::UnknownSecurityModel(h.msg_security_model))
    } else {
        None
    }
}

/// The header at position `i`. The flags are one octet; fields that are
/// refused are reported at the start of the header.
#[verifier::opaque]
pub open spec fn parse_header(s: Seq<u8>, i: int) -> Parsed<MsgGlobalData> {
    match parse_element(s, i, tag::universal::SEQUENCE) {
        Parsed::Failed { at, kind } => Parsed::Failed { at, kind },
        Parsed::Value { value: c, next } => {
            let start = next - c.len();
            match parse_integer(c, 0) {
                Parsed::Failed { at, kind } => Parsed::Failed { at: start + at, kind },
                Parsed::Value { value: msg_id, next: j1 } => match parse_integer(c, j1) {
                    Parsed::Failed { at, kind } => Parsed::Failed { at: start + at, kind },
                    Parsed::Value { value: max_size, next: j2 } => match parse_octet_string(c, j2) {
                        Parsed::Failed { at, kind } => Parsed::Failed { at: start + at, kind },
                        Parsed::Value { value: flags, next: j3 } => if flags.len() != 1 {
                            Parsed::Failed {
                                at: start + j2,
                                kind: DecodeErrorKind::InvalidLength,
                            }
                        } else {
                            match parse_integer(c, j3) {
                                Parsed::Failed { at, kind } => Parsed::Failed { at: start + at, kind },
                                Parsed::Value { value: model, next: _ } => {
                                    let h = MsgGlobalData {
                                        msg_id: msg_id as i32,
                                        msg_max_size: max_size as i32,
                                        msg_flags: flags_of(flags[0]),
                                        msg_security_model: model as i32,
                                    };
                                    match header_fault(h) {
                                        Some(kind) => Parsed::Failed { at: i, kind },
                                        None => Parsed::Value { value: h, next },
                                    }
                                },
                            }
                        },
                    },
                },
            }
        },
    }
}

/// The flags are read back from their octet.
pub proof fn lemma_flags_roundtrip(f: MsgFlags)
    ensures
        flags_of(flags_octet(f)) == f,
{
}

/// The fields of a header are read back from the content of its SEQUENCE,
/// one behind the other.
proof fn lemma_header_fields(h: MsgGlobalData)
    ensures
        ({
            let c = header_content(h);
            let j1 = integer_ber(h.msg_id).len() as int;
            let j2 = j1 + integer_ber(h.msg_max_size).len();
            let j3 = j2 + octets_ber(seq![flags_octet(h.msg_flags)]).len();
            &&& c.len() == j3 + integer_ber(h.msg_security_model).len()
            &&& c.len() <= MAX_LENGTH
            &&& parse_integer(c, 0) == (Parsed::Value { value: h.msg_id as int, next: j1 })
            &&& parse_integer(c, j1) == (Parsed::Value { value: h.msg_max_size as int, next: j2 })
            &&& parse_octet_string(c, j2) == (Parsed::Value {
                value: seq![flags_octet(h.msg_flags)],
                next: j3,
            })
            &&& parse_integer(c, j3) == (Parsed::Value {
                value: h.msg_security_model as int,
                next: c.len() as int,
            })
        }),
{
    let c = header_content(h);
    let flags = seq![flags_octet(h.msg_flags)];
    let e1 = integer_ber(h.msg_id);
    let e2 = integer_ber(h.msg_max_size);
    let e3 = octets_ber(flags);
    let e4 = integer_ber(h.msg_security_model);
    let j1 = e1.len() as int;
    let j2 = j1 + e2.len();
    let j3 = j2 + e3.len();
    let j4 = j3 + e4.len();
    assert(c == e1 + e2 + e3 + e4);
    assert(c.len() == j4);
    crate::ber::encode::lemma_int_content_len(h.msg_id as int);
    crate::ber::encode::lemma_int_content_len(h.msg_max_size as int);
    crate::ber::encode::lemma_int_content_len(h.msg_security_model as int);
    lemma_tlv_len(tag::universal::OCTET_STRING, flags);
    assert(parse_integer(c, 0) == (Parsed::Value { value: h.msg_id as int, next: j1 })) by {
        assert(c.subrange(0, j1) =~= e1);
        lemma_integer_element_roundtrip_at(c, 0, h.msg_id);
    }
    assert(parse_integer(c, j1) == (Parsed::Value { value: h.msg_max_size as int, next: j2 })) by {
        assert(c.subrange(j1, j2) =~= e2);
        lemma_integer_element_roundtrip_at(c, j1, h.msg_max_size);
    }
    assert(parse_octet_string(c, j2) == (Parsed::Value { value: flags, next: j3 })) by {
        assert(c.subrange(j2, j3) =~= e3);
        assert(c[j2] == e3[0]);
        lemma_parse_tlv(c, j2, tag::universal::OCTET_STRING, flags);
    }
    assert(parse_integer(c, j3) == (Parsed::Value {
        value: h.msg_security_model as int,
        next: j4,
    })) by {
        assert(c.subrange(j3, j4) =~= e4);
        lemma_integer_element_roundtrip_at(c, j3, h.msg_security_model);
    }
}

/// Decoding the encoding of a header whose fields are in order gives it
/// back, wherever the encoding stands in the data and whatever follows it.
pub proof fn lemma_header_roundtrip_at(s: Seq<u8>, i: int, h: MsgGlobalData)
    requires
        header_fault(h) is None,
        0 <= i,
        i + header_ber(h).len() <= s.len(),
        s.subrange(i, i + header_ber(h).len()) == header_ber(h),
    ensures
        parse_header(s, i) == (Parsed::Value { value: h, next: i + header_ber(h).len() }),
{
    lemma_header_fields(h);
    lemma_parse_tlv(s, i, tag::universal::SEQUENCE, header_content(h));
    lemma_flags_roundtrip(h.msg_flags);
    reveal(parse_header);
}

impl MsgGlobalData {
    /// Encode to BER.
    pub fn encode(&self, buf: &mut EncodeBuf)
        ensures
            final(buf)@ == header_ber(*self) + old(buf)@,
    {
        let start = buf.len();
        buf.push_integer(self.msg_security_model);
        let flags: [u8; 1] = [self.msg_flags.to_byte()];
        buf.push_octet_string(flags.as_slice());
        buf.push_integer(self.msg_max_size);
        buf.push_integer(self.msg_id);
        proof {
            assert(flags@ =~= seq![flags_octet(self.msg_flags)]);
            assert(buf@ =~= header_content(*self) + old(buf)@);
            assert(buf@.subrange(0, buf@.len() - start) =~= header_content(*self));
            assert(buf@.subrange(buf@.len() - start, buf@.len() as int) =~= old(buf)@);
        }
        buf.wrap(tag::universal::SEQUENCE, start);
    }

    /// Decode from BER.
    pub fn decode(decoder: &mut Decoder) -> (r: Result<MsgGlobalData>)
        ensures
            match parse_header(old(decoder).data(), old(decoder).position()) {
                Parsed::Value { value, next } => r == Ok::<MsgGlobalData, Error>(value)
                    && final(decoder).moved(*old(decoder), next),
                Parsed::Failed { at, kind } => r == Err::<MsgGlobalData, Error>(
                    old(decoder).fault(at, kind),
                ) && final(decoder).moved(*old(decoder), old(decoder).position()),
            },
    {
        proof {
            reveal(parse_header);
        }
        let begin = decoder.offset();
        let mut probe = decoder.fork();
        let mut body = match probe.read_sequence() {
            Err(e) => {
                return Err(e);
            },
            Ok(b) => b,
        };
        let ghost c = body.data();
        proof {
            lemma_parse_integer_shape(c, 0);
        }
        let msg_id = match body.read_integer() {
            Err(e) => {
                return Err(e);
            },
            Ok(v) => v,
        };
        proof {
            lemma_parse_integer_shape(c, body.position());
        }
        let msg_max_size = match body.read_integer() {
            Err(e) => {
                return Err(e);
            },
            Ok(v) => v,
        };
        let at_flags = body.offset();
        let flags = match body.read_octet_string() {
            Err(e) => {
                return Err(e);
            },
            Ok(v) => v,
        };
        if flags.len() != 1 {
            return Err(Error::decode(at_flags, DecodeErrorKind::InvalidLength));
        }
        proof {
            lemma_parse_integer_shape(c, body.position());
        }
        let model = match body.read_integer() {
            Err(e) => {
                return Err(e);
            },
            Ok(v) => v,
        };
        let msg_flags = MsgFlags::from_byte(flags[0]);
        if msg_id < 0 {
            return Err(Error::decode(begin, DecodeErrorKind::InvalidMsgId { value: msg_id }));
        }
        if msg_max_size < MIN_MSG_MAX_SIZE {
            return Err(
                Error::decode(
                    begin,
                    DecodeErrorKind::MsgMaxSizeTooSmall {
                        value: msg_max_size,
                        minimum: MIN_MSG_MAX_SIZE,
                    },
                ),
            );
        }
        if msg_flags.privacy && !msg_flags.auth {
            return Err(Error::decode(begin, DecodeErrorKind::InvalidMsgFlags));
        }
        if model != SECURITY_MODEL_USM {
            return Err(Error::decode(begin, DecodeErrorKind::UnknownSecurityModel(model)));
        }
        decoder.advance_to(&probe);
        Ok(MsgGlobalData { msg_id, msg_max_size, msg_flags, msg_security_model: model })
    }
}

/// The data of a v3 message: a scoped PDU in the clear, or its ciphertext.
#[derive(Debug, Clone, PartialEq, Eq)]
pub enum ScopedData {
    Plaintext(ScopedPdu),
    Encrypted(Vec<u8>),
}

/// What the data of a message is, apart from how it is stored.
pub enum ScopedDataView {
    Plaintext(ScopedPduView),
    Encrypted(Seq<u8>),
}

impl View for ScopedData {
    type V = ScopedDataView;

    open spec fn view(&self) -> ScopedDataView {
        match self {
            ScopedData::Plaintext(sp) => ScopedDataView::Plaintext(sp@),
            ScopedData::Encrypted(c) => ScopedDataView::Encrypted(c@),
        }
    }
}

/// A v3 message.
#[derive(Debug, Clone, PartialEq, Eq)]
pub struct V3Message {
    pub global_data: MsgGlobalData,
    pub security_params: UsmSecurityParams,
    pub data: ScopedData,
}

/// What a v3 message is, apart from how it is stored.
pub struct V3MessageView {
    pub global_data: MsgGlobalData,
    pub security_params: UsmView,
    pub data: ScopedDataView,
}

impl View for V3Message {
    type V = V3MessageView;

    open spec fn view(&self) -> V3MessageView {
        V3MessageView {
            global_data: self.global_data,
            security_params: self.security_params@,
            data: self.data@,
        }
    }
}

/// The BER element of the data of a message.
pub open spec fn data_ber(d: ScopedDataView) -> Seq<u8> {
    match d {
        ScopedDataView::Plaintext(sp) => scoped_ber(sp),
        ScopedDataView::Encrypted(c) => octets_ber(c),
    }
}

/// The content of the outer SEQUENCE of a v3 message.
pub open spec fn v3_content(m: V3MessageView) -> Seq<u8> {
    integer_ber(3) + header_ber(m.global_data) + octets_ber(usm_ber(m.security_params)) + data_ber(
        m.data,
    )
}

/// The octets of a v3 message.
pub open spec fn v3_ber(m: V3MessageView) -> Seq<u8> {
    tlv(tag::universal::SEQUENCE, v3_content(m))
}

/// The data of a message at position `i`: with the privacy flag an OCTET
/// STRING, without it a scoped PDU. A scoped PDU under the privacy flag and
/// an OCTET STRING without it are refused at `i`.
pub open spec fn parse_data(s: Seq<u8>, i: int, privacy: bool) -> Parsed<ScopedDataView> {
    if privacy {
        if 0 <= i < s.len() && s[i] == tag::universal::SEQUENCE {
            Parsed::Failed { at: i, kind: DecodeErrorKind::ExpectedEncryption }
        } else {
            match parse_octet_string(s, i) {
                Parsed::Failed { at, kind } => Parsed::Failed { at, kind },
                Parsed::Value { value, next } => Parsed::Value {
                    value: ScopedDataView::Encrypted(value),
                    next,
                },
            }
        }
    } else {
        if 0 <= i < s.len() && s[i] == tag::universal::OCTET_STRING {
            Parsed::Failed { at: i, kind: DecodeErrorKind::UnexpectedEncryption }
        } else {
            match parse_scoped_pdu(s, i) {
                Parsed::Failed { at, kind } => Parsed::Failed { at, kind },
                Parsed::Value { value, next } => Parsed::Value {
                    value: ScopedDataView::Plaintext(value),
                    next,
                },
            }
        }
    }
}

/// The v3 message that the data holds from position 0, and the position of
/// the content of the authentication code. Another version than 3 is
/// refused at the element of the version.
#[verifier::opaque]
pub open spec fn parse_v3(s: Seq<u8>) -> Parsed<(V3MessageView, int)> {
    match parse_element(s, 0, tag::universal::SEQUENCE) {
        Parsed::Failed { at, kind } => Parsed::Failed { at, kind },
        Parsed::Value { value: c, next } => {
            let start = next - c.len();
            match parse_integer(c, 0) {
                Parsed::Failed { at, kind } => Parsed::Failed { at: start + at, kind },
                Parsed::Value { value: version, next: j1 } => if version != 3 {
                    Parsed::Failed {
                        at: start,
                        kind: DecodeErrorKind::UnknownVersion(version as i32),
                    }
                } else {
                    match parse_header(c, j1) {
                        Parsed::Failed { at, kind } => Parsed::Failed { at: start + at, kind },
                        Parsed::Value { value: global_data, next: j2 } => match parse_element(
                            c,
                            j2,
                            tag::universal::OCTET_STRING,
                        ) {
                            Parsed::Failed { at, kind } => Parsed::Failed { at: start + at, kind },
                            Parsed::Value { value: sec, next: j3 } => {
                                let sec_start = start + j3 - sec.len();
                                match parse_usm(sec, 0) {
                                    Parsed::Failed { at, kind } => Parsed::Failed {
                                        at: sec_start + at,
                                        kind,
                                    },
                                    Parsed::Value { value: usm, next: _ } => match parse_data(
                                        c,
                                        j3,
                                        global_data.msg_flags.privacy,
                                    ) {
                                        Parsed::Failed { at, kind } => Parsed::Failed {
                                            at: start + at,
                                            kind,
                                        },
                                        Parsed::Value { value: data, next: _ } => Parsed::Value {
                                            value: (
                                                V3MessageView {
                                                    global_data,
                                                    security_params: usm.0,
                                                    data,
                                                },
                                                sec_start + usm.1,
                                            ),
                                            next,
                                        },
                                    },
                                }
                            },
                        },
                    }
                },
            }
        },
    }
}

/// The number of octets from the content of the authentication code to
/// the end of the message.
pub open spec fn code_distance(m: V3MessageView) -> int {
    (m.security_params.auth_params.len() + super::usm::usm_tail(m.security_params).len()
        + data_ber(m.data).len()) as int
}

/// The offset of the content of the authentication code in the octets of
/// the message.
pub open spec fn code_offset(m: V3MessageView) -> int {
    v3_ber(m).len() - code_distance(m)
}

/// A run of octets that stands at a distance from the end of the data
/// stands at the same distance when more is put in front of the data.
proof fn lemma_position_from_end(front: Seq<u8>, rest: Seq<u8>, mark: int, run: Seq<u8>)
    requires
        run.len() <= mark <= rest.len(),
        rest.subrange(rest.len() - mark, rest.len() - mark + run.len()) == run,
    ensures
        (front + rest).subrange(
            (front + rest).len() - mark,
            (front + rest).len() - mark + run.len(),
        ) == run,
{
    let whole = front + rest;
    assert forall|i: int| 0 <= i < run.len() implies whole.subrange(
        whole.len() - mark,
        whole.len() - mark + run.len(),
    )[i] == run[i] by {
        assert(rest.subrange(rest.len() - mark, rest.len() - mark + run.len())[i] == rest[rest.len()
            - mark + i]);
    }
    assert(whole.subrange(whole.len() - mark, whole.len() - mark + run.len()) =~= run);
}

/// The message with another authentication code of the same length.
pub open spec fn with_auth_params(m: V3MessageView, code: Seq<u8>) -> V3MessageView {
    V3MessageView {
        global_data: m.global_data,
        security_params: UsmView {
            engine_id: m.security_params.engine_id,
            engine_boots: m.security_params.engine_boots,
            engine_time: m.security_params.engine_time,
            user_name: m.security_params.user_name,
            auth_params: code,
            priv_params: m.security_params.priv_params,
        },
        data: m.data,
    }
}

/// Octets that replace a run in the middle of a sequence.
proof fn lemma_replace_middle(front: Seq<u8>, run: Seq<u8>, back: Seq<u8>, code: Seq<u8>)
    requires
        code.len() == run.len(),
    ensures
        crate::v3::auth::with_code(front + run + back, front.len() as int, code.len(), code) == front
            + code + back,
{
    let whole = front + run + back;
    let got = crate::v3::auth::with_code(whole, front.len() as int, code.len(), code);
    assert(got =~= front + code + back);
}

/// What stands in the octets of a message in front of the content of its
/// authentication code. It depends on the code only by its length.
pub open spec fn code_front(m: V3MessageView) -> Seq<u8> {
    let u = m.security_params;
    let in_content = octets_ber(u.engine_id) + integer_ber(u.engine_boots) + integer_ber(
        u.engine_time,
    ) + octets_ber(u.user_name) + (seq![tag::universal::OCTET_STRING]
        + crate::ber::length::ber_length(u.auth_params.len()));
    let in_parameters = seq![tag::universal::SEQUENCE] + crate::ber::length::ber_length(
        super::usm::usm_content(u).len(),
    ) + in_content;
    let in_octets = seq![tag::universal::OCTET_STRING] + crate::ber::length::ber_length(
        usm_ber(u).len(),
    ) + in_parameters;
    let in_message = integer_ber(3) + header_ber(m.global_data) + in_octets;
    seq![tag::universal::SEQUENCE] + crate::ber::length::ber_length(v3_content(m).len())
        + in_message
}

/// A run in the content of an element is a run in the element, behind the
/// tag and the length.
proof fn lemma_run_in_element(t: u8, content: Seq<u8>, front: Seq<u8>, run: Seq<u8>, back: Seq<u8>)
    requires
        content == front + run + back,
    ensures
        tlv(t, content) == (seq![t] + crate::ber::length::ber_length(content.len()) + front) + run
            + back,
{
    assert(tlv(t, content) =~= (seq![t] + crate::ber::length::ber_length(content.len()) + front)
        + run + back);
}

/// A run in the middle part of three is a run in the whole.
proof fn lemma_run_in_middle(
    a: Seq<u8>,
    x: Seq<u8>,
    d: Seq<u8>,
    front: Seq<u8>,
    run: Seq<u8>,
    back: Seq<u8>,
)
    requires
        x == front + run + back,
    ensures
        a + x + d == (a + front) + run + (back + d),
{
    assert(a + x + d =~= (a + front) + run + (back + d));
}

/// The content of the parameters is what stands in front of the
/// authentication code, the code, and the privacy parameters.
proof fn lemma_code_in_content(u: UsmView)
    ensures
        super::usm::usm_content(u) == (octets_ber(u.engine_id) + integer_ber(u.engine_boots)
            + integer_ber(u.engine_time) + octets_ber(u.user_name) + (
        seq![tag::universal::OCTET_STRING] + crate::ber::length::ber_length(u.auth_params.len())))
            + u.auth_params + usm_tail(u),
{
    let lead = seq![tag::universal::OCTET_STRING] + crate::ber::length::ber_length(
        u.auth_params.len(),
    );
    assert(octets_ber(u.auth_params) =~= lead + u.auth_params);
    let given = octets_ber(u.engine_id) + integer_ber(u.engine_boots) + integer_ber(u.engine_time)
        + octets_ber(u.user_name);
    assert(super::usm::usm_content(u) == given + octets_ber(u.auth_params) + usm_tail(u));
    assert(given + (lead + u.auth_params) + usm_tail(u) =~= (given + lead) + u.auth_params
        + usm_tail(u));
}

/// The octets of a message are what stands in front of its authentication
/// code, the code, and what follows it.
proof fn lemma_code_split(m: V3MessageView)
    ensures
        v3_ber(m) == code_front(m) + m.security_params.auth_params + (usm_tail(m.security_params)
            + data_ber(m.data)),
        code_offset(m) == code_front(m).len(),
{
    let u = m.security_params;
    let auth = u.auth_params;
    let tail = usm_tail(u);
    let in_content = octets_ber(u.engine_id) + integer_ber(u.engine_boots) + integer_ber(
        u.engine_time,
    ) + octets_ber(u.user_name) + (seq![tag::universal::OCTET_STRING]
        + crate::ber::length::ber_length(u.auth_params.len()));
    let content = super::usm::usm_content(u);
    lemma_code_in_content(u);
    lemma_run_in_element(tag::universal::SEQUENCE, content, in_content, auth, tail);
    let in_parameters = seq![tag::universal::SEQUENCE] + crate::ber::length::ber_length(
        content.len(),
    ) + in_content;
    let sec = usm_ber(u);
    lemma_run_in_element(tag::universal::OCTET_STRING, sec, in_parameters, auth, tail);
    let in_octets = seq![tag::universal::OCTET_STRING] + crate::ber::length::ber_length(sec.len())
        + in_parameters;
    let before = integer_ber(3) + header_ber(m.global_data);
    lemma_run_in_middle(before, octets_ber(sec), data_ber(m.data), in_octets, auth, tail);
    let in_message = before + in_octets;
    let c = v3_content(m);
    lemma_run_in_element(tag::universal::SEQUENCE, c, in_message, auth, tail + data_ber(m.data));
    let whole = v3_ber(m);
    let front = code_front(m);
    assert(whole == front + auth + (tail + data_ber(m.data)));
    assert(whole.len() == front.len() + auth.len() + tail.len() + data_ber(m.data).len());
}

/// A code that is put in the place of the authentication code of a message
/// gives the octets of the message with that code: the octets around the
/// code depend on the code only by its length.
pub proof fn lemma_code_in_place(m: V3MessageView, code: Seq<u8>)
    requires
        code.len() == m.security_params.auth_params.len(),
    ensures
        v3_ber(with_auth_params(m, code)) == crate::v3::auth::with_code(
            v3_ber(m),
            code_offset(m),
            code.len(),
            code,
        ),
        code_offset(with_auth_params(m, code)) == code_offset(m),
        0 <= code_offset(m),
        code_offset(m) + code.len() <= v3_ber(m).len(),
        v3_round_trips(m) ==> v3_round_trips(with_auth_params(m, code)),
{
    let m2 = with_auth_params(m, code);
    let u = m.security_params;
    let u2 = m2.security_params;
    assert(super::usm::usm_content(u2).len() == super::usm::usm_content(u).len());
    assert(usm_ber(u2).len() == usm_ber(u).len());
    assert(v3_content(m2).len() == v3_content(m).len());
    lemma_code_split(m);
    lemma_code_split(m2);
    assert(code_front(m2) =~= code_front(m));
    lemma_replace_middle(
        code_front(m),
        u.auth_params,
        usm_tail(u) + data_ber(m.data),
        code,
    );
}

/// The message can stand on the wire and be read back: its header is in
/// order, its parameters and its data are read back, the data is encrypted
/// exactly under the privacy flag, and no content is longer than the
/// decoder accepts.
pub open spec fn v3_round_trips(m: V3MessageView) -> bool {
    &&& header_fault(m.global_data) is None
    &&& usm_round_trips(m.security_params)
    &&& usm_ber(m.security_params).len() <= MAX_LENGTH
    &&& match m.data {
        ScopedDataView::Plaintext(sp) => !m.global_data.msg_flags.privacy && scoped_round_trips(sp),
        ScopedDataView::Encrypted(c) => m.global_data.msg_flags.privacy && c.len() <= MAX_LENGTH,
    }
    &&& v3_content(m).len() <= MAX_LENGTH
}

/// The parts of a message are read back from the content of its SEQUENCE,
/// one behind the other.
proof fn lemma_v3_fields(m: V3MessageView)
    requires
        v3_round_trips(m),
    ensures
        ({
            let c = v3_content(m);
            let sec = usm_ber(m.security_params);
            let j1 = integer_ber(3).len() as int;
            let j2 = j1 + header_ber(m.global_data).len();
            let j3 = j2 + octets_ber(sec).len();
            &&& c.len() == j3 + data_ber(m.data).len()
            &&& j3 >= sec.len()
            &&& parse_integer(c, 0) == (Parsed::Value { value: 3int, next: j1 })
            &&& parse_header(c, j1) == (Parsed::Value { value: m.global_data, next: j2 })
            &&& parse_element(c, j2, tag::universal::OCTET_STRING) == (Parsed::Value {
                value: sec,
                next: j3,
            })
            &&& parse_usm(sec, 0) == (Parsed::Value {
                value: (
                    m.security_params,
                    sec.len() - usm_tail(m.security_params).len()
                        - m.security_params.auth_params.len(),
                ),
                next: sec.len() as int,
            })
            &&& parse_data(c, j3, m.global_data.msg_flags.privacy) == (Parsed::Value {
                value: m.data,
                next: c.len() as int,
            })
        }),
{
    let c = v3_content(m);
    let sec = usm_ber(m.security_params);
    let e1 = integer_ber(3);
    let e2 = header_ber(m.global_data);
    let e3 = octets_ber(sec);
    let e4 = data_ber(m.data);
    let j1 = e1.len() as int;
    let j2 = j1 + e2.len();
    let j3 = j2 + e3.len();
    let j4 = j3 + e4.len();
    assert(c == e1 + e2 + e3 + e4);
    assert(c.len() == j4);
    lemma_tlv_len(tag::universal::OCTET_STRING, sec);
    assert(parse_integer(c, 0) == (Parsed::Value { value: 3int, next: j1 })) by {
        assert(c.subrange(0, j1) =~= e1);
        lemma_integer_element_roundtrip_at(c, 0, 3);
    }
    assert(parse_header(c, j1) == (Parsed::Value { value: m.global_data, next: j2 })) by {
        assert(c.subrange(j1, j2) =~= e2);
        lemma_header_roundtrip_at(c, j1, m.global_data);
    }
    assert(parse_element(c, j2, tag::universal::OCTET_STRING) == (Parsed::Value {
        value: sec,
        next: j3,
    })) by {
        assert(c.subrange(j2, j3) =~= e3);
        lemma_parse_tlv(c, j2, tag::universal::OCTET_STRING, sec);
    }
    assert(sec.subrange(0, sec.len() as int) =~= sec);
    super::usm::lemma_usm_roundtrip_at(sec, 0, m.security_params);
    assert(c.subrange(j3, j4) =~= e4);
    match m.data {
        ScopedDataView::Plaintext(sp) => {
            lemma_tlv_len(tag::universal::SEQUENCE, scoped_content(sp));
            assert(c[j3] == e4[0]);
            lemma_scoped_roundtrip_at(c, j3, sp);
        },
        ScopedDataView::Encrypted(cipher) => {
            lemma_tlv_len(tag::universal::OCTET_STRING, cipher);
            assert(c[j3] == e4[0]);
            lemma_parse_tlv(c, j3, tag::universal::OCTET_STRING, cipher);
        },
    }
}

/// A message is read from the parts that its content holds.
proof fn lemma_parse_v3_from_parts(
    s: Seq<u8>,
    c: Seq<u8>,
    sec: Seq<u8>,
    h: MsgGlobalData,
    u: UsmView,
    code_in_sec: int,
    data: ScopedDataView,
    j1: int,
    j2: int,
    j3: int,
)
    requires
        parse_element(s, 0, tag::universal::SEQUENCE) == (Parsed::Value {
            value: c,
            next: s.len() as int,
        }),
        parse_integer(c, 0) == (Parsed::Value { value: 3int, next: j1 }),
        parse_header(c, j1) == (Parsed::Value { value: h, next: j2 }),
        parse_element(c, j2, tag::universal::OCTET_STRING) == (Parsed::Value {
            value: sec,
            next: j3,
        }),
        parse_usm(sec, 0) == (Parsed::Value { value: (u, code_in_sec), next: sec.len() as int }),
        parse_data(c, j3, h.msg_flags.privacy) == (Parsed::Value {
            value: data,
            next: c.len() as int,
        }),
    ensures
        parse_v3(s) == (Parsed::Value {
            value: (
                V3MessageView { global_data: h, security_params: u, data },
                s.len() - c.len() + j3 - sec.len() + code_in_sec,
            ),
            next: s.len() as int,
        }),
{
    reveal(parse_v3);
}

/// Decoding the encoding of a v3 message gives the message back, with the
/// place of its authentication code.
pub proof fn lemma_v3_message_roundtrip(m: V3MessageView)
    requires
        v3_round_trips(m),
    ensures
        parse_v3(v3_ber(m)) == (Parsed::Value {
            value: (m, code_offset(m)),
            next: v3_ber(m).len() as int,
        }),
{
    let s = v3_ber(m);
    let c = v3_content(m);
    assert(s.subrange(0, s.len() as int) =~= s);
    lemma_parse_tlv(s, 0, tag::universal::SEQUENCE, c);
    lemma_v3_fields(m);
    let sec = usm_ber(m.security_params);
    let j1 = integer_ber(3).len() as int;
    let j2 = j1 + header_ber(m.global_data).len();
    let j3 = j2 + octets_ber(sec).len();
    let code_in_sec = sec.len() - usm_tail(m.security_params).len()
        - m.security_params.auth_params.len();
    lemma_parse_v3_from_parts(
        s,
        c,
        sec,
        m.global_data,
        m.security_params,
        code_in_sec,
        m.data,
        j1,
        j2,
        j3,
    );
    assert(s.len() - c.len() + j3 - sec.len() + code_in_sec == code_offset(m));
}

impl V3Message {
    /// Pushes the data and, in front of it, the security parameters in their
    /// OCTET STRING. Gives the length of the buffer from the content of the
    /// authentication code to its end.
    fn encode_tail(&self, buf: &mut EncodeBuf) -> (r: usize)
        requires
            old(buf)@.len() == 0,
        ensures
            final(buf)@ == octets_ber(usm_ber(self@.security_params)) + data_ber(self@.data),
            r == code_distance(self@),
            r <= final(buf)@.len(),
            r >= self@.security_params.auth_params.len(),
            final(buf)@.subrange(
                final(buf)@.len() - r,
                final(buf)@.len() - r + self@.security_params.auth_params.len(),
            ) == self@.security_params.auth_params,
    {
        match &self.data {
            ScopedData::Plaintext(sp) => sp.encode(buf),
            ScopedData::Encrypted(c) => buf.push_octet_string(c.as_slice()),
        }
        let ghost data = buf@;
        proof {
            assert(data =~= data_ber(self@.data));
        }
        let sec_start = buf.len();
        let mark = self.security_params.encode(buf);
        let ghost with_usm = buf@;
        proof {
            assert(with_usm.subrange(0, with_usm.len() - sec_start) =~= usm_ber(
                self@.security_params,
            ));
            assert(with_usm.subrange(with_usm.len() - sec_start, with_usm.len() as int) =~= data);
        }
        buf.wrap(tag::universal::OCTET_STRING, sec_start);
        proof {
            let front = seq![tag::universal::OCTET_STRING] + crate::ber::length::ber_length(
                usm_ber(self@.security_params).len(),
            );
            assert(buf@ =~= front + with_usm);
            lemma_position_from_end(
                front,
                with_usm,
                mark as int,
                self@.security_params.auth_params,
            );
        }
        mark
    }

    /// The octets of the message, and the offset in them of the content of
    /// the authentication code.
    #[verifier::spinoff_prover]
    #[verifier::rlimit(50)]
    pub fn encode(&self) -> (r: (Vec<u8>, usize))
        ensures
            r.0@ == v3_ber(self@),
            r.1 == code_offset(self@),
            r.1 + self@.security_params.auth_params.len() <= r.0@.len(),
            r.0@.subrange(r.1 as int, r.1 + self@.security_params.auth_params.len())
                == self@.security_params.auth_params,
    {
        let mut buf = EncodeBuf::new();
        let mark = self.encode_tail(&mut buf);
        let ghost tail = buf@;
        self.global_data.encode(&mut buf);
        buf.push_integer(3);
        let ghost content = buf@;
        proof {
            assert(content =~= v3_content(self@));
            assert(content.subrange(0, content.len() as int) =~= content);
            assert(content.subrange(content.len() as int, content.len() as int) =~= Seq::<u8>::empty());
        }
        buf.wrap(tag::universal::SEQUENCE, 0);
        let total = buf.len();
        proof {
            let front = seq![tag::universal::SEQUENCE] + crate::ber::length::ber_length(
                content.len(),
            ) + integer_ber(3) + header_ber(self@.global_data);
            assert(buf@ =~= front + tail);
            assert(buf@ =~= v3_ber(self@));
            lemma_position_from_end(front, tail, mark as int, self@.security_params.auth_params);
        }
        (buf.finish_vec(), total - mark)
    }

    /// Decode a message. Gives the message and the offset in the data of the
    /// content of the authentication code.
    pub fn decode(data: &[u8]) -> (r: Result<(V3Message, usize)>)
        ensures
            match parse_v3(data@) {
                Parsed::Value { value, next } => r matches Ok(pair) && pair.0@ == value.0 && pair.1
                    == value.1,
                Parsed::Failed { at, kind } => r matches Err(e) && e == (Error::Decode {
                    offset: at as usize,
                    kind,
                }),
            },
    {
        proof {
            reveal(parse_v3);
        }
        let mut decoder = Decoder::from_slice(data);
        let mut body = match decoder.read_sequence() {
            Err(e) => {
                return Err(e);
            },
            Ok(b) => b,
        };
        let ghost c = body.data();
        let at_version = body.offset();
        proof {
            lemma_parse_integer_shape(c, 0);
        }
        let version = match body.read_integer() {
            Err(e) => {
                return Err(e);
            },
            Ok(v) => v,
        };
        if version != 3 {
            return Err(Error::decode(at_version, DecodeErrorKind::UnknownVersion(version)));
        }
        let global_data = match MsgGlobalData::decode(&mut body) {
            Err(e) => {
                return Err(e);
            },
            Ok(h) => h,
        };
        let mut sec = match body.read_constructed(tag::universal::OCTET_STRING) {
            Err(e) => {
                return Err(e);
            },
            Ok(s) => s,
        };
        let (security_params, auth_at) = match UsmSecurityParams::decode(&mut sec) {
            Err(e) => {
                return Err(e);
            },
            Ok(pair) => pair,
        };
        let at_data = body.offset();
        let next_tag = body.peek_tag();
        let data = if global_data.msg_flags.privacy {
            match next_tag {
                Some(t) => {
                    if t == tag::universal::SEQUENCE {
                        return Err(Error::decode(at_data, DecodeErrorKind::ExpectedEncryption));
                    }
                },
                None => {},
            }
            match body.read_octet_string() {
                Err(e) => {
                    return Err(e);
                },
                Ok(c) => ScopedData::Encrypted(c),
            }
        } else {
            match next_tag {
                Some(t) => {
                    if t == tag::universal::OCTET_STRING {
                        return Err(Error::decode(at_data, DecodeErrorKind::UnexpectedEncryption));
                    }
                },
                None => {},
            }
            match ScopedPdu::decode(&mut body) {
                Err(e) => {
                    return Err(e);
                },
                Ok(sp) => ScopedData::Plaintext(sp),
            }
        };
        Ok((V3Message { global_data, security_params, data }, auth_at))
    }
}

} // verus!
