//! USM security parameters (RFC 3414, section 2.4).

use vstd::prelude::*;

use crate::ber::decode::{
    lemma_integer_element_roundtrip_at, lemma_parse_integer_shape, lemma_parse_tlv, parse_element,
    parse_integer, parse_octet_string, Decoder,
};
use crate::ber::encode::{tlv, EncodeBuf};
use crate::ber::length::MAX_LENGTH;
use crate::ber::tag;
use crate::error::{DecodeErrorKind, Error, Result};
use crate::oid::Parsed;
use crate::pdu::integer_ber;
use crate::varbind::lemma_tlv_len;

verus! {

/// The security parameters of a v3 message under USM.
#[derive(Debug, Clone, PartialEq, Eq)]
pub struct UsmSecurityParams {
    /// The id of the authoritative engine.
    pub engine_id: Vec<u8>,
    /// How often the authoritative engine has booted; between 0 and 2^31 - 1.
    pub engine_boots: i32,
    /// The seconds since the authoritative engine booted last; between 0
    /// and 2^31 - 1.
    pub engine_time: i32,
    /// The name of the user.
    pub user_name: Vec<u8>,
    /// The authentication code: empty, or of the MAC length of the protocol.
    pub auth_params: Vec<u8>,
    /// The salt: empty, or 8 octets.
    pub priv_params: Vec<u8>,
}

/// What the security parameters are, apart from how they are stored.
pub struct UsmView {
    pub engine_id: Seq<u8>,
    pub engine_boots: i32,
    pub engine_time: i32,
    pub user_name: Seq<u8>,
    pub auth_params: Seq<u8>,
    pub priv_params: Seq<u8>,
}

impl View for UsmSecurityParams {
    type V = UsmView;

    open spec fn view(&self) -> UsmView {
        UsmView {
            engine_id: self.engine_id@,
            engine_boots: self.engine_boots,
            engine_time: self.engine_time,
            user_name: self.user_name@,
            auth_params: self.auth_params@,
            priv_params: self.priv_params@,
        }
    }
}

/// The BER element of an OCTET STRING.
pub open spec fn octets_ber(b: Seq<u8>) -> Seq<u8> {
    tlv(tag::universal::OCTET_STRING, b)
}

/// What follows the authentication code in the content of the parameters.
pub open spec fn usm_tail(u: UsmView) -> Seq<u8> {
    octets_ber(u.priv_params)
}

/// The content of the SEQUENCE of the parameters.
pub open spec fn usm_content(u: UsmView) -> Seq<u8> {
    octets_ber(u.engine_id) + integer_ber(u.engine_boots) + integer_ber(u.engine_time) + octets_ber(
        u.user_name,
    ) + octets_ber(u.auth_params) + usm_tail(u)
}

/// The BER element of the parameters.
pub open spec fn usm_ber(u: UsmView) -> Seq<u8> {
    tlv(tag::universal::SEQUENCE, usm_content(u))
}

/// The parameters at position `i`, and the position of the content of the
/// authentication code. Engine boots or time below 0 are refused at their
/// element.
#[verifier::opaque]
pub open spec fn parse_usm(s: Seq<u8>, i: int) -> Parsed<(UsmView, int)> {
    match parse_element(s, i, tag::universal::SEQUENCE) {
        Parsed::Failed { at, kind } => Parsed::Failed { at, kind },
        Parsed::Value { value: c, next } => {
            let start = next - c.len();
            match parse_octet_string(c, 0) {
                Parsed::Failed { at, kind } => Parsed::Failed { at: start + at, kind },
                Parsed::Value { value: engine_id, next: j1 } => match parse_integer(c, j1) {
                    Parsed::Failed { at, kind } => Parsed::Failed { at: start + at, kind },
                    Parsed::Value { value: boots, next: j2 } => if boots < 0 {
                        Parsed::Failed {
                            at: start + j1,
                            kind: DecodeErrorKind::InvalidEngineBoots { value: boots as i32 },
                        }
                    } else {
                        match parse_integer(c, j2) {
                            Parsed::Failed { at, kind } => Parsed::Failed { at: start + at, kind },
                            Parsed::Value { value: time, next: j3 } => if time < 0 {
                                Parsed::Failed {
                                    at: start + j2,
                                    kind: DecodeErrorKind::InvalidEngineTime { value: time as i32 },
                                }
                            } else {
                                match parse_octet_string(c, j3) {
                                    Parsed::Failed { at, kind } => Parsed::Failed {
                                        at: start + at,
                                        kind,
                                    },
                                    Parsed::Value { value: user_name, next: j4 } => match parse_octet_string(
                                        c,
                                        j4,
                                    ) {
                                        Parsed::Failed { at, kind } => Parsed::Failed {
                                            at: start + at,
                                            kind,
                                        },
                                        Parsed::Value {
                                            value: auth_params,
                                            next: j5,
                                        } => match parse_octet_string(c, j5) {
                                            Parsed::Failed { at, kind } => Parsed::Failed {
                                                at: start + at,
                                                kind,
                                            },
                                            Parsed::Value {
                                                value: priv_params,
                                                next: _,
                                            } => Parsed::Value {
                                                value: (
                                                    UsmView {
                                                        engine_id,
                                                        engine_boots: boots as i32,
                                                        engine_time: time as i32,
                                                        user_name,
                                                        auth_params,
                                                        priv_params,
                                                    },
                                                    start + j5 - auth_params.len(),
                                                ),
                                                next,
                                            },
                                        },
                                    },
                                }
                            },
                        }
                    },
                },
            }
        },
    }
}

/// The parameters can stand on the wire and be read back: boots and time are
/// not negative, and no content is longer than the decoder accepts.
pub open spec fn usm_round_trips(u: UsmView) -> bool {
    &&& u.engine_boots >= 0
    &&& u.engine_time >= 0
    &&& u.engine_id.len() <= MAX_LENGTH
    &&& u.user_name.len() <= MAX_LENGTH
    &&& u.auth_params.len() <= MAX_LENGTH
    &&& u.priv_params.len() <= MAX_LENGTH
    &&& usm_content(u).len() <= MAX_LENGTH
}

/// The fields of security parameters are read back from the content of
/// their SEQUENCE, one behind the other.
proof fn lemma_usm_fields(u: UsmView)
    requires
        usm_round_trips(u),
    ensures
        ({
            let c = usm_content(u);
            let j1 = octets_ber(u.engine_id).len() as int;
            let j2 = j1 + integer_ber(u.engine_boots).len();
            let j3 = j2 + integer_ber(u.engine_time).len();
            let j4 = j3 + octets_ber(u.user_name).len();
            let j5 = j4 + octets_ber(u.auth_params).len();
            &&& c.len() == j5 + octets_ber(u.priv_params).len()
            &&& parse_octet_string(c, 0) == (Parsed::Value { value: u.engine_id, next: j1 })
            &&& parse_integer(c, j1) == (Parsed::Value { value: u.engine_boots as int, next: j2 })
            &&& parse_integer(c, j2) == (Parsed::Value { value: u.engine_time as int, next: j3 })
            &&& parse_octet_string(c, j3) == (Parsed::Value { value: u.user_name, next: j4 })
            &&& parse_octet_string(c, j4) == (Parsed::Value { value: u.auth_params, next: j5 })
            &&& parse_octet_string(c, j5) == (Parsed::Value {
                value: u.priv_params,
                next: c.len() as int,
            })
        }),
{
    let c = usm_content(u);
    let e1 = octets_ber(u.engine_id);
    let e2 = integer_ber(u.engine_boots);
    let e3 = integer_ber(u.engine_time);
    let e4 = octets_ber(u.user_name);
    let e5 = octets_ber(u.auth_params);
    let e6 = octets_ber(u.priv_params);
    let j1 = e1.len() as int;
    let j2 = j1 + e2.len();
    let j3 = j2 + e3.len();
    let j4 = j3 + e4.len();
    let j5 = j4 + e5.len();
    let j6 = j5 + e6.len();
    assert(c == e1 + e2 + e3 + e4 + e5 + e6);
    assert(c.len() == j6);
    lemma_tlv_len(tag::universal::OCTET_STRING, u.engine_id);
    lemma_tlv_len(tag::universal::OCTET_STRING, u.user_name);
    lemma_tlv_len(tag::universal::OCTET_STRING, u.auth_params);
    lemma_tlv_len(tag::universal::OCTET_STRING, u.priv_params);
    assert(parse_octet_string(c, 0) == (Parsed::Value { value: u.engine_id, next: j1 })) by {
        assert(c.subrange(0, j1) =~= e1);
        assert(c[0] == e1[0]);
        lemma_parse_tlv(c, 0, tag::universal::OCTET_STRING, u.engine_id);
    }
    assert(parse_integer(c, j1) == (Parsed::Value { value: u.engine_boots as int, next: j2 })) by {
        assert(c.subrange(j1, j2) =~= e2);
        lemma_integer_element_roundtrip_at(c, j1, u.engine_boots);
    }
    assert(parse_integer(c, j2) == (Parsed::Value { value: u.engine_time as int, next: j3 })) by {
        assert(c.subrange(j2, j3) =~= e3);
        lemma_integer_element_roundtrip_at(c, j2, u.engine_time);
    }
    assert(parse_octet_string(c, j3) == (Parsed::Value { value: u.user_name, next: j4 })) by {
        assert(c.subrange(j3, j4) =~= e4);
        assert(c[j3] == e4[0]);
        lemma_parse_tlv(c, j3, tag::universal::OCTET_STRING, u.user_name);
    }
    assert(parse_octet_string(c, j4) == (Parsed::Value { value: u.auth_params, next: j5 })) by {
        assert(c.subrange(j4, j5) =~= e5);
        assert(c[j4] == e5[0]);
        lemma_parse_tlv(c, j4, tag::universal::OCTET_STRING, u.auth_params);
    }
    assert(parse_octet_string(c, j5) == (Parsed::Value { value: u.priv_params, next: j6 })) by {
        assert(c.subrange(j5, j6) =~= e6);
        assert(c[j5] == e6[0]);
        lemma_parse_tlv(c, j5, tag::universal::OCTET_STRING, u.priv_params);
    }
}

/// Decoding the encoding of security parameters gives them back, wherever
/// the encoding stands in the data and whatever follows it; the code is
/// found where the encoding holds it.
pub proof fn lemma_usm_roundtrip_at(s: Seq<u8>, i: int, u: UsmView)
    requires
        usm_round_trips(u),
        0 <= i,
        i + usm_ber(u).len() <= s.len(),
        s.subrange(i, i + usm_ber(u).len()) == usm_ber(u),
    ensures
        parse_usm(s, i) == (Parsed::Value {
            value: (u, i + usm_ber(u).len() - usm_tail(u).len() - u.auth_params.len()),
            next: i + usm_ber(u).len(),
        }),
{
    let c = usm_content(u);
    lemma_parse_tlv(s, i, tag::universal::SEQUENCE, c);
    lemma_usm_fields(u);
    reveal(parse_usm);
}

/// Where a run of octets stands that is followed by a known tail.
proof fn lemma_mark(front: Seq<u8>, auth: Seq<u8>, tail: Seq<u8>)
    ensures
        ({
            let whole = front + auth + tail;
            let mark = auth.len() + tail.len();
            whole.subrange(whole.len() - mark, whole.len() - mark + auth.len()) == auth
        }),
{
    let whole = front + auth + tail;
    let mark = auth.len() + tail.len();
    assert(whole.subrange(whole.len() - mark, whole.len() - mark + auth.len()) =~= auth);
}

impl UsmSecurityParams {
    /// The parameters of a message without an engine, a user or security:
    /// what a discovery request carries.
    pub fn empty() -> (r: UsmSecurityParams)
        ensures
            r@ == (UsmView {
                engine_id: Seq::empty(),
                engine_boots: 0,
                engine_time: 0,
                user_name: Seq::empty(),
                auth_params: Seq::empty(),
                priv_params: Seq::empty(),
            }),
    {
        UsmSecurityParams {
            engine_id: Vec::new(),
            engine_boots: 0,
            engine_time: 0,
            user_name: Vec::new(),
            auth_params: Vec::new(),
            priv_params: Vec::new(),
        }
    }

    /// Encode to BER: the element of the parameters comes to stand in front
    /// of what the buffer holds. Gives the length of the buffer from the
    /// content of the authentication code to its end, by which the code is
    /// found in the finished message.
    #[verifier::spinoff_prover]
    #[verifier::rlimit(50)]
    pub fn encode(&self, buf: &mut EncodeBuf) -> (r: usize)
        ensures
            final(buf)@ == usm_ber(self@) + old(buf)@,
            r == self@.auth_params.len() + usm_tail(self@).len() + old(buf)@.len(),
            r <= final(buf)@.len(),
            r >= self@.auth_params.len(),
            final(buf)@.subrange(
                final(buf)@.len() - r,
                final(buf)@.len() - r + self@.auth_params.len(),
            ) == self@.auth_params,
    {
        let start = buf.len();
        let ghost s0 = buf@;
        buf.push_octet_string(self.priv_params.as_slice());
        let ghost s1 = buf@;
        buf.push_bytes(self.auth_params.as_slice());
        let mark = buf.len();
        buf.push_length(self.auth_params.len());
        buf.push_tag(tag::universal::OCTET_STRING);
        let ghost s2 = buf@;
        proof {
            assert(s2 =~= octets_ber(self@.auth_params) + s1);
        }
        buf.push_octet_string(self.user_name.as_slice());
        buf.push_integer(self.engine_time);
        buf.push_integer(self.engine_boots);
        buf.push_octet_string(self.engine_id.as_slice());
        let ghost before_auth = octets_ber(self@.engine_id) + integer_ber(self@.engine_boots)
            + integer_ber(self@.engine_time) + octets_ber(self@.user_name);
        let ghost inner = buf@;
        proof {
            assert(inner =~= before_auth + s2);
            assert(inner =~= usm_content(self@) + s0);
            assert(inner.subrange(0, inner.len() - start) =~= usm_content(self@));
            assert(inner.subrange(inner.len() - start, inner.len() as int) =~= s0);
        }
        buf.wrap(tag::universal::SEQUENCE, start);
        proof {
            let header = seq![tag::universal::SEQUENCE] + crate::ber::length::ber_length(
                usm_content(self@).len(),
            );
            let auth_header = seq![tag::universal::OCTET_STRING] + crate::ber::length::ber_length(
                self@.auth_params.len(),
            );
            assert(buf@ =~= header + before_auth + auth_header + self@.auth_params + (usm_tail(
                self@,
            ) + s0));
            lemma_mark(
                header + before_auth + auth_header,
                self@.auth_params,
                usm_tail(self@) + s0,
            );
        }
        mark
    }

    /// Decode from BER. Gives the parameters and the offset of the content
    /// of the authentication code in the outermost data.
    pub fn decode(decoder: &mut Decoder) -> (r: Result<(UsmSecurityParams, usize)>)
        ensures
            match parse_usm(old(decoder).data(), old(decoder).position()) {
                Parsed::Value { value, next } => r matches Ok(pair) && pair.0@ == value.0 && pair.1
                    == old(decoder).base() + value.1 && final(decoder).moved(*old(decoder), next),
                Parsed::Failed { at, kind } => r matches Err(e) && e == old(decoder).fault(at, kind)
                    && final(decoder).moved(*old(decoder), old(decoder).position()),
            },
    {
        proof {
            reveal(parse_usm);
        }
        let mut probe = decoder.fork();
        let mut body = match probe.read_sequence() {
            Err(e) => {
                return Err(e);
            },
            Ok(b) => b,
        };
        let ghost c = body.data();
        let engine_id = match body.read_octet_string() {
            Err(e) => {
                return Err(e);
            },
            Ok(v) => v,
        };
        let at_boots = body.offset();
        proof {
            lemma_parse_integer_shape(c, body.position());
        }
        let engine_boots = match body.read_integer() {
            Err(e) => {
                return Err(e);
            },
            Ok(v) => v,
        };
        if engine_boots < 0 {
            return Err(
                Error::decode(at_boots, DecodeErrorKind::InvalidEngineBoots { value: engine_boots }),
            );
        }
        let at_time = body.offset();
        proof {
            lemma_parse_integer_shape(c, body.position());
        }
        let engine_time = match body.read_integer() {
            Err(e) => {
                return Err(e);
            },
            Ok(v) => v,
        };
        if engine_time < 0 {
            return Err(
                Error::decode(at_time, DecodeErrorKind::InvalidEngineTime { value: engine_time }),
            );
        }
        let user_name = match body.read_octet_string() {
            Err(e) => {
                return Err(e);
            },
            Ok(v) => v,
        };
        let auth_params = match body.read_octet_string() {
            Err(e) => {
                return Err(e);
            },
            Ok(v) => v,
        };
        let auth_at = body.offset() - auth_params.len();
        let priv_params = match body.read_octet_string() {
            Err(e) => {
                return Err(e);
            },
            Ok(v) => v,
        };
        decoder.advance_to(&probe);
        Ok(
            (
                UsmSecurityParams {
                    engine_id,
                    engine_boots,
                    engine_time,
                    user_name,
                    auth_params,
                    priv_params,
                },
                auth_at,
            ),
        )
    }
}

} // verus!
