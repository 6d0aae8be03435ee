//! SNMP messages: the v1/v2c community message and the security level.

use vstd::prelude::*;

use crate::ber::decode::{
    lemma_integer_element_roundtrip_at,
    lemma_parse_tlv,
    parse_element,
    parse_integer,
    parse_octet_string,
    Decoder,
};
use crate::ber::encode::{tlv, EncodeBuf};
use crate::ber::length::MAX_LENGTH;
use crate::ber::tag;
use crate::error::{DecodeErrorKind, Error, Result};
use crate::octets::bytes_contents;
use crate::oid::Parsed;
use crate::pdu::{
    integer_ber, lemma_pdu_roundtrip_at, parse_pdu, pdu_ber, pdu_round_trips, Pdu, PduView,
};
use crate::varbind::lemma_tlv_len;
use crate::version::Version;

verus! {

/// Security level of a request: whether it is authenticated and encrypted.
#[derive(Debug, Clone, Copy, PartialEq, Eq, PartialOrd, Ord, Hash, Structural)]
pub enum SecurityLevel {
    /// Neither authentication nor privacy.
    NoAuthNoPriv,
    /// Authentication without privacy.
    AuthNoPriv,
    /// Authentication and privacy.
    AuthPriv,
}

impl SecurityLevel {
    /// The rank of the level: a higher level has a higher rank.
    pub open spec fn rank(self) -> int {
        match self {
            SecurityLevel::NoAuthNoPriv => 0,
            SecurityLevel::AuthNoPriv => 1,
            SecurityLevel::AuthPriv => 2,
        }
    }

    /// The rank of the level, as a number.
    pub fn level(self) -> (r: u8)
        ensures
            r == self.rank(),
    {
        match self {
            SecurityLevel::NoAuthNoPriv => 0,
            SecurityLevel::AuthNoPriv => 1,
            SecurityLevel::AuthPriv => 2,
        }
    }

    /// Whether this level is at least `required`.
    pub fn satisfies(self, required: SecurityLevel) -> (r: bool)
        ensures
            r == (self.rank() >= required.rank()),
    {
        self.level() >= required.level()
    }

    /// The level that the flags of a message stand for, or `None` for
    /// privacy without authentication.
    pub fn from_flags(auth: bool, privacy: bool) -> (r: Option<SecurityLevel>)
        ensures
            r == (if privacy && !auth {
                None
            } else if privacy {
                Some(SecurityLevel::AuthPriv)
            } else if auth {
                Some(SecurityLevel::AuthNoPriv)
            } else {
                Some(SecurityLevel::NoAuthNoPriv)
            }),
    {
        if privacy && !auth {
            None
        } else if privacy {
            Some(SecurityLevel::AuthPriv)
        } else if auth {
            Some(SecurityLevel::AuthNoPriv)
        } else {
            Some(SecurityLevel::NoAuthNoPriv)
        }
    }

    /// Whether messages of this level are authenticated.
    pub fn requires_auth(self) -> (r: bool)
        ensures
            r == (self.rank() >= 1),
    {
        self.level() >= 1
    }

    /// Whether messages of this level are encrypted.
    pub fn requires_priv(self) -> (r: bool)
        ensures
            r == (self.rank() == 2),
    {
        self.level() == 2
    }
}

/// A v1 or v2c message: version, community and PDU.
#[derive(Debug, Clone, PartialEq, Eq)]
pub struct CommunityMessage {
    pub version: Version,
    pub community: Vec<u8>,
    pub pdu: Pdu,
}

/// What a community message is, apart from how it is stored.
pub struct CommunityMessageView {
    pub version: Version,
    pub community: Seq<u8>,
    pub pdu: PduView,
}

impl View for CommunityMessage {
    type V = CommunityMessageView;

    open spec fn view(&self) -> CommunityMessageView {
        CommunityMessageView { version: self.version, community: self.community@, pdu: self.pdu@ }
    }
}

/// The content of the outer SEQUENCE of a community message.
pub open spec fn community_content(m: CommunityMessageView) -> Seq<u8> {
    integer_ber(m.version.wire_value() as i32) + tlv(tag::universal::OCTET_STRING, m.community)
        + pdu_ber(m.pdu)
}

/// The octets of a community message.
pub open spec fn community_message_ber(m: CommunityMessageView) -> Seq<u8> {
    tlv(tag::universal::SEQUENCE, community_content(m))
}

/// The community message that the data holds from position 0: a SEQUENCE of
/// the version (0 or 1), the community and a PDU. Another version is refused
/// at the element of the version. What follows the PDU is passed over.
#[verifier::opaque]
pub open spec fn parse_community_message(s: Seq<u8>) -> Parsed<CommunityMessageView> {
    match parse_element(s, 0, tag::universal::SEQUENCE) {
        Parsed::Failed { at, kind } => Parsed::Failed { at, kind },
        Parsed::Value { value: c, next } => {
            let start = next - c.len();
            match parse_integer(c, 0) {
                Parsed::Failed { at, kind } => Parsed::Failed { at: start + at, kind },
                Parsed::Value { value: v, next: j1 } => if v != 0 && v != 1 {
                    Parsed::Failed {
                        at: start,
                        kind: DecodeErrorKind::UnknownVersion(v as i32),
                    }
                } else {
                    match parse_octet_string(c, j1) {
                        Parsed::Failed { at, kind } => Parsed::Failed { at: start + at, kind },
                        Parsed::Value { value: community, next: j2 } => match parse_pdu(c, j2) {
                            Parsed::Failed { at, kind } => Parsed::Failed { at: start + at, kind },
                            Parsed::Value { value: pdu, next: _ } => Parsed::Value {
                                value: CommunityMessageView {
                                    version: if v == 0 {
                                        Version::V1
                                    } else {
                                        Version::V2c
                                    },
                                    community,
                                    pdu,
                                },
                                next,
                            },
                        },
                    }
                },
            }
        },
    }
}

/// The community messages that decoding gives back from their encoding.
pub open spec fn community_message_round_trips(m: CommunityMessageView) -> bool {
    &&& m.version != Version::V3
    &&& m.community.len() <= MAX_LENGTH
    &&& pdu_round_trips(m.pdu)
    &&& community_content(m).len() <= MAX_LENGTH
}

/// Decoding the encoding of a community message gives the message back.
pub proof fn lemma_community_message_roundtrip(m: CommunityMessageView)
    requires
        community_message_round_trips(m),
    ensures
        parse_community_message(community_message_ber(m)) == (Parsed::Value {
            value: m,
            next: community_message_ber(m).len() as int,
        }),
{
    reveal(parse_community_message);
    let s = community_message_ber(m);
    let c = community_content(m);
    assert(s.subrange(0, s.len() as int) =~= s);
    lemma_parse_tlv(s, 0, tag::universal::SEQUENCE, c);
    let v = m.version.wire_value() as i32;
    let a = integer_ber(v);
    let b = tlv(tag::universal::OCTET_STRING, m.community);
    let p = pdu_ber(m.pdu);
    let j1 = a.len() as int;
    let j2 = j1 + b.len();
    assert(c.subrange(0, j1) =~= a);
    assert(c.subrange(j1, j2) =~= b);
    assert(c.subrange(j2, j2 + p.len()) =~= p);
    lemma_integer_element_roundtrip_at(c, 0, v);
    lemma_tlv_len(tag::universal::OCTET_STRING, m.community);
    assert(c[j1] == tag::universal::OCTET_STRING) by {
        assert(c.subrange(j1, j2)[0] == c[j1]);
    }
    lemma_parse_tlv(c, j1, tag::universal::OCTET_STRING, m.community);
    lemma_pdu_roundtrip_at(c, j2, m.pdu);
}

impl CommunityMessage {
    /// A message with the given version, community and PDU.
    pub fn new(version: Version, community: Vec<u8>, pdu: Pdu) -> (r: CommunityMessage)
        ensures
            r.version == version,
            r.community == community,
            r.pdu == pdu,
    {
        CommunityMessage { version, community, pdu }
    }

    /// Encode into a buffer: the message comes to stand in front of what the
    /// buffer holds.
    pub fn encode_to(&self, buf: &mut EncodeBuf)
        ensures
            final(buf)@ == community_message_ber(self@) + old(buf)@,
    {
        let start = buf.len();
        self.pdu.encode(buf);
        buf.push_octet_string(self.community.as_slice());
        buf.push_integer(self.version.as_i32());
        proof {
            assert(buf@ =~= community_content(self@) + old(buf)@);
            assert(buf@.subrange(0, buf@.len() - start) =~= community_content(self@));
            assert(buf@.subrange(buf@.len() - start, buf@.len() as int) =~= old(buf)@);
        }
        buf.wrap(tag::universal::SEQUENCE, start);
    }

    /// The octets of the message.
    pub fn encode(&self) -> (r: bytes::Bytes)
        ensures
            bytes_contents(r) == community_message_ber(self@),
    {
        let mut buf = EncodeBuf::new();
        self.encode_to(&mut buf);
        proof {
            assert(buf@ =~= community_message_ber(self@));
        }
        buf.finish()
    }

    /// The octets of the message, as a vector.
    pub fn encode_vec(&self) -> (r: Vec<u8>)
        ensures
            r@ == community_message_ber(self@),
    {
        let mut buf = EncodeBuf::new();
        self.encode_to(&mut buf);
        proof {
            assert(buf@ =~= community_message_ber(self@));
        }
        buf.finish_vec()
    }

    /// Decode a message from a buffer.
    pub fn decode(data: &bytes::Bytes) -> (r: Result<CommunityMessage>)
        ensures
            match parse_community_message(bytes_contents(*data)) {
                Parsed::Value { value, next } => r matches Ok(m) && m@ == value,
                Parsed::Failed { at, kind } => r matches Err(e) && e == (Error::Decode {
                    offset: at as usize,
                    kind,
                }),
            },
    {
        let mut decoder = Decoder::new(data);
        CommunityMessage::decode_from(&mut decoder)
    }

    /// Decode a message from a slice.
    pub fn decode_slice(data: &[u8]) -> (r: Result<CommunityMessage>)
        ensures
            match parse_community_message(data@) {
                Parsed::Value { value, next } => r matches Ok(m) && m@ == value,
                Parsed::Failed { at, kind } => r matches Err(e) && e == (Error::Decode {
                    offset: at as usize,
                    kind,
                }),
            },
    {
        let mut decoder = Decoder::from_slice(data);
        CommunityMessage::decode_from(&mut decoder)
    }

    /// Decode a message with a decoder that stands at the start of its data.
    fn decode_from(decoder: &mut Decoder) -> (r: Result<CommunityMessage>)
        requires
            old(decoder).position() == 0,
            old(decoder).base() == 0,
            old(decoder).inv(),
        ensures
            match parse_community_message(old(decoder).data()) {
                Parsed::Value { value, next } => r matches Ok(m) && m@ == value,
                Parsed::Failed { at, kind } => r matches Err(e) && e == (Error::Decode {
                    offset: at as usize,
                    kind,
                }),
            },
    {
        proof {
            reveal(parse_community_message);
        }
        let mut body = match decoder.read_sequence() {
            Err(e) => {
                return Err(e);
            },
            Ok(body) => body,
        };
        let at_version = body.offset();
        let v = match body.read_integer() {
            Err(e) => {
                return Err(e);
            },
            Ok(v) => v,
        };
        let version = if v == 0 {
            Version::V1
        } else if v == 1 {
            Version::V2c
        } else {
            return Err(Error::decode(at_version, DecodeErrorKind::UnknownVersion(v)));
        };
        let community = match body.read_octet_string() {
            Err(e) => {
                return Err(e);
            },
            Ok(c) => c,
        };
        let pdu = match Pdu::decode(&mut body) {
            Err(e) => {
                return Err(e);
            },
            Ok(p) => p,
        };
        Ok(CommunityMessage { version, community, pdu })
    }
}

} // verus!
