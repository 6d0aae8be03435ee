//! SNMP values.

use vstd::prelude::*;

use crate::ber::decode::{
    counter64_of, decode_counter64_content, decode_integer_content, decode_unsigned32_content,
    integer_of, lemma_counter64_roundtrip, lemma_integer_roundtrip, lemma_parse_tlv,
    lemma_unsigned32_roundtrip, parse_any, unsigned32_of, Decoder,
};
use crate::ber::encode::{int_content, tlv, EncodeBuf};
use crate::ber::length::MAX_LENGTH;
use crate::ber::tag;
use crate::error::{DecodeErrorKind, Error, Result};
use crate::oid::{dotted, lemma_oid_ber_roundtrip, oid_ber, parse_oid, valid_arcs, Oid, Parsed};
use crate::text::{decimal, hex_text, push_decimal, push_hex_lower, push_signed_decimal, signed_decimal};

verus! {

/// A value of one of the SNMP data types.
#[derive(Debug, Clone, PartialEq, Eq)]
pub enum Value {
    /// INTEGER: a signed 32-bit number.
    Integer(i32),
    /// OCTET STRING.
    OctetString(Vec<u8>),
    /// NULL.
    Null,
    /// OBJECT IDENTIFIER.
    ObjectIdentifier(Oid),
    /// IpAddress: four octets.
    IpAddress([u8; 4]),
    /// Counter32.
    Counter32(u32),
    /// Gauge32, also Unsigned32.
    Gauge32(u32),
    /// TimeTicks, in hundredths of a second.
    TimeTicks(u32),
    /// Opaque: octets that wrap another encoding.
    Opaque(Vec<u8>),
    /// Counter64.
    Counter64(u64),
    /// The exception noSuchObject.
    NoSuchObject,
    /// The exception noSuchInstance.
    NoSuchInstance,
    /// The exception endOfMibView.
    EndOfMibView,
    /// An element with a tag that this library does not know, kept as it came.
    Unknown { tag: u8, data: Vec<u8> },
}

/// What a value is, apart from how it is stored.
pub enum ValueView {
    Integer(i32),
    OctetString(Seq<u8>),
    Null,
    ObjectIdentifier(Seq<u32>),
    IpAddress(Seq<u8>),
    Counter32(u32),
    Gauge32(u32),
    TimeTicks(u32),
    Opaque(Seq<u8>),
    Counter64(u64),
    NoSuchObject,
    NoSuchInstance,
    EndOfMibView,
    Unknown { tag: u8, data: Seq<u8> },
}

impl View for Value {
    type V = ValueView;

    open spec fn view(&self) -> ValueView {
        match self {
            Value::Integer(v) => ValueView::Integer(*v),
            Value::OctetString(b) => ValueView::OctetString(b@),
            Value::Null => ValueView::Null,
            Value::ObjectIdentifier(o) => ValueView::ObjectIdentifier(o@),
            Value::IpAddress(a) => ValueView::IpAddress(a@),
            Value::Counter32(v) => ValueView::Counter32(*v),
            Value::Gauge32(v) => ValueView::Gauge32(*v),
            Value::TimeTicks(v) => ValueView::TimeTicks(*v),
            Value::Opaque(b) => ValueView::Opaque(b@),
            Value::Counter64(v) => ValueView::Counter64(*v),
            Value::NoSuchObject => ValueView::NoSuchObject,
            Value::NoSuchInstance => ValueView::NoSuchInstance,
            Value::EndOfMibView => ValueView::EndOfMibView,
            Value::Unknown { tag, data } => ValueView::Unknown { tag: *tag, data: data@ },
        }
    }
}

/// The tags that stand for a data type of this library. An element with
/// another tag is kept as `Unknown`.
pub open spec fn known_tag(t: u8) -> bool {
    t == tag::universal::INTEGER || t == tag::universal::OCTET_STRING || t
        == tag::universal::OCTET_STRING_CONSTRUCTED || t == tag::universal::NULL || t
        == tag::universal::OBJECT_IDENTIFIER || t == tag::application::IP_ADDRESS || t
        == tag::application::COUNTER32 || t == tag::application::GAUGE32 || t
        == tag::application::TIMETICKS || t == tag::application::OPAQUE || t
        == tag::application::COUNTER64 || t == tag::context::NO_SUCH_OBJECT || t
        == tag::context::NO_SUCH_INSTANCE || t == tag::context::END_OF_MIB_VIEW
}

/// The BER element that stands for a value.
pub open spec fn value_ber(v: ValueView) -> Seq<u8> {
    match v {
        ValueView::Integer(i) => tlv(tag::universal::INTEGER, int_content(i as int)),
        ValueView::OctetString(b) => tlv(tag::universal::OCTET_STRING, b),
        ValueView::Null => tlv(tag::universal::NULL, Seq::empty()),
        ValueView::ObjectIdentifier(arcs) => tlv(tag::universal::OBJECT_IDENTIFIER, oid_ber(arcs)),
        ValueView::IpAddress(a) => tlv(tag::application::IP_ADDRESS, a),
        ValueView::Counter32(n) => tlv(tag::application::COUNTER32, int_content(n as int)),
        ValueView::Gauge32(n) => tlv(tag::application::GAUGE32, int_content(n as int)),
        ValueView::TimeTicks(n) => tlv(tag::application::TIMETICKS, int_content(n as int)),
        ValueView::Opaque(b) => tlv(tag::application::OPAQUE, b),
        ValueView::Counter64(n) => tlv(tag::application::COUNTER64, int_content(n as int)),
        ValueView::NoSuchObject => tlv(tag::context::NO_SUCH_OBJECT, Seq::empty()),
        ValueView::NoSuchInstance => tlv(tag::context::NO_SUCH_INSTANCE, Seq::empty()),
        ValueView::EndOfMibView => tlv(tag::context::END_OF_MIB_VIEW, Seq::empty()),
        ValueView::Unknown { tag, data } => tlv(tag, data),
    }
}

/// The value that a content with the tag `t` stands for, with the place of a
/// fault counted from the start of the content. The content of an exception
/// is passed over; an unknown tag keeps its content.
pub open spec fn value_of(t: u8, c: Seq<u8>) -> Parsed<ValueView> {
    if t == tag::universal::INTEGER {
        match integer_of(c) {
            Ok(v) => Parsed::Value { value: ValueView::Integer(v as i32), next: 0 },
            Err(kind) => Parsed::Failed { at: 0, kind },
        }
    } else if t == tag::universal::OCTET_STRING {
        Parsed::Value { value: ValueView::OctetString(c), next: 0 }
    } else if t == tag::universal::NULL {
        if c.len() != 0 {
            Parsed::Failed { at: 0, kind: DecodeErrorKind::InvalidNull }
        } else {
            Parsed::Value { value: ValueView::Null, next: 0 }
        }
    } else if t == tag::universal::OBJECT_IDENTIFIER {
        match parse_oid(c) {
            Parsed::Value { value, next } => Parsed::Value {
                value: ValueView::ObjectIdentifier(value),
                next: 0,
            },
            Parsed::Failed { at, kind } => Parsed::Failed { at, kind },
        }
    } else if t == tag::application::IP_ADDRESS {
        if c.len() != 4 {
            Parsed::Failed {
                at: 0,
                kind: DecodeErrorKind::InvalidIpAddressLength { length: c.len() as usize },
            }
        } else {
            Parsed::Value { value: ValueView::IpAddress(c), next: 0 }
        }
    } else if t == tag::application::COUNTER32 || t == tag::application::GAUGE32 || t
        == tag::application::TIMETICKS {
        match unsigned32_of(c) {
            Ok(v) => Parsed::Value {
                value: if t == tag::application::COUNTER32 {
                    ValueView::Counter32(v as u32)
                } else if t == tag::application::GAUGE32 {
                    ValueView::Gauge32(v as u32)
                } else {
                    ValueView::TimeTicks(v as u32)
                },
                next: 0,
            },
            Err(kind) => Parsed::Failed { at: 0, kind },
        }
    } else if t == tag::application::OPAQUE {
        Parsed::Value { value: ValueView::Opaque(c), next: 0 }
    } else if t == tag::application::COUNTER64 {
        match counter64_of(c) {
            Ok(v) => Parsed::Value { value: ValueView::Counter64(v as u64), next: 0 },
            Err(kind) => Parsed::Failed { at: 0, kind },
        }
    } else if t == tag::context::NO_SUCH_OBJECT {
        Parsed::Value { value: ValueView::NoSuchObject, next: 0 }
    } else if t == tag::context::NO_SUCH_INSTANCE {
        Parsed::Value { value: ValueView::NoSuchInstance, next: 0 }
    } else if t == tag::context::END_OF_MIB_VIEW {
        Parsed::Value { value: ValueView::EndOfMibView, next: 0 }
    } else {
        Parsed::Value { value: ValueView::Unknown { tag: t, data: c }, next: 0 }
    }
}

/// The value that the element at position `i` stands for. A constructed
/// OCTET STRING is refused at its tag; a content that is refused is reported
/// at its place in the data.
#[verifier::opaque]
pub open spec fn parse_value(s: Seq<u8>, i: int) -> Parsed<ValueView> {
    if 0 <= i < s.len() && s[i] == tag::universal::OCTET_STRING_CONSTRUCTED {
        Parsed::Failed { at: i, kind: DecodeErrorKind::ConstructedOctetString }
    } else {
        match parse_any(s, i) {
            Parsed::Failed { at, kind } => Parsed::Failed { at, kind },
            Parsed::Value { value: pair, next } => match value_of(pair.0, pair.1) {
                Parsed::Value { value, next: _ } => Parsed::Value { value, next },
                Parsed::Failed { at, kind } => Parsed::Failed {
                    at: next - pair.1.len() + at,
                    kind,
                },
            },
        }
    }
}

/// Where a value ends and where its faults are reported.
pub proof fn lemma_parse_value_shape(s: Seq<u8>, i: int)
    requires
        0 <= i,
    ensures
        match parse_value(s, i) {
            Parsed::Failed { at, kind } => i <= at && (at <= s.len() || at == i),
            Parsed::Value { value, next } => i + 2 <= next <= s.len(),
        },
{
    reveal(parse_value);
    match parse_any(s, i) {
        Parsed::Value { value: pair, next } => {
            crate::oid::lemma_parse_oid_shape(pair.1);
        },
        _ => {},
    }
}

/// The values that decoding gives back from their encoding: an OID is valid
/// or empty, an IpAddress has four octets, octet contents are no longer than
/// the decoder accepts, and an `Unknown` does not carry a known tag.
pub open spec fn value_round_trips(v: ValueView) -> bool {
    match v {
        ValueView::OctetString(b) => b.len() <= MAX_LENGTH,
        ValueView::Opaque(b) => b.len() <= MAX_LENGTH,
        ValueView::ObjectIdentifier(arcs) => valid_arcs(arcs) || arcs.len() == 0,
        ValueView::IpAddress(a) => a.len() == 4,
        ValueView::Unknown { tag, data } => !known_tag(tag) && data.len() <= MAX_LENGTH,
        _ => true,
    }
}

/// The content of the encoding of a valid OID is short.
pub proof fn lemma_oid_ber_len(arcs: Seq<u32>)
    requires
        valid_arcs(arcs) || arcs.len() == 0,
    ensures
        oid_ber(arcs).len() <= 5 * arcs.len(),
{
    crate::oid::lemma_encode_subids_len(crate::oid::subids(arcs));
}

/// Decoding the encoding of a value gives the value back, wherever the
/// encoding stands in the data.
pub proof fn lemma_value_roundtrip_at(s: Seq<u8>, i: int, v: ValueView)
    requires
        value_round_trips(v),
        0 <= i,
        i + value_ber(v).len() <= s.len(),
        s.subrange(i, i + value_ber(v).len()) == value_ber(v),
    ensures
        parse_value(s, i) == (Parsed::Value { value: v, next: i + value_ber(v).len() }),
{
    reveal(parse_value);
    let enc = value_ber(v);
    assert(s[i] == enc[0]) by {
        assert(s.subrange(i, i + enc.len())[0] == s[i]);
    }
    match v {
        ValueView::Integer(n) => {
            lemma_integer_roundtrip(n);
            crate::ber::encode::lemma_int_content_len(n as int);
            lemma_parse_tlv(s, i, tag::universal::INTEGER, int_content(n as int));
        },
        ValueView::OctetString(b) => {
            lemma_parse_tlv(s, i, tag::universal::OCTET_STRING, b);
        },
        ValueView::Null => {
            lemma_parse_tlv(s, i, tag::universal::NULL, Seq::empty());
        },
        ValueView::ObjectIdentifier(arcs) => {
            lemma_oid_ber_len(arcs);
            lemma_parse_tlv(s, i, tag::universal::OBJECT_IDENTIFIER, oid_ber(arcs));
            if arcs.len() != 0 {
                lemma_oid_ber_roundtrip(arcs);
            } else {
                assert(crate::oid::subids(arcs).len() == 0);
                assert(oid_ber(arcs).len() == 0);
                assert(arcs =~= Seq::<u32>::empty());
            }
        },
        ValueView::IpAddress(a) => {
            lemma_parse_tlv(s, i, tag::application::IP_ADDRESS, a);
        },
        ValueView::Counter32(n) => {
            lemma_unsigned32_roundtrip(n);
            crate::ber::encode::lemma_int_content_len(n as int);
            lemma_parse_tlv(s, i, tag::application::COUNTER32, int_content(n as int));
        },
        ValueView::Gauge32(n) => {
            lemma_unsigned32_roundtrip(n);
            crate::ber::encode::lemma_int_content_len(n as int);
            lemma_parse_tlv(s, i, tag::application::GAUGE32, int_content(n as int));
        },
        ValueView::TimeTicks(n) => {
            lemma_unsigned32_roundtrip(n);
            crate::ber::encode::lemma_int_content_len(n as int);
            lemma_parse_tlv(s, i, tag::application::TIMETICKS, int_content(n as int));
        },
        ValueView::Opaque(b) => {
            lemma_parse_tlv(s, i, tag::application::OPAQUE, b);
        },
        ValueView::Counter64(n) => {
            lemma_counter64_roundtrip(n);
            crate::ber::encode::lemma_int_content_len(n as int);
            lemma_parse_tlv(s, i, tag::application::COUNTER64, int_content(n as int));
        },
        ValueView::NoSuchObject => {
            lemma_parse_tlv(s, i, tag::context::NO_SUCH_OBJECT, Seq::empty());
        },
        ValueView::NoSuchInstance => {
            lemma_parse_tlv(s, i, tag::context::NO_SUCH_INSTANCE, Seq::empty());
        },
        ValueView::EndOfMibView => {
            lemma_parse_tlv(s, i, tag::context::END_OF_MIB_VIEW, Seq::empty());
        },
        ValueView::Unknown { tag, data } => {
            lemma_parse_tlv(s, i, tag, data);
        },
    }
}

/// For every value that can stand on the wire, decoding its encoding gives
/// the value back and reads the whole encoding.
pub proof fn lemma_value_roundtrip(v: ValueView)
    requires
        value_round_trips(v),
    ensures
        parse_value(value_ber(v), 0) == (Parsed::Value { value: v, next: value_ber(v).len() as int }),
{
    let s = value_ber(v);
    assert(s.subrange(0, s.len() as int) =~= s);
    lemma_value_roundtrip_at(s, 0, v);
}

/// Octets as text: `0x` and two hexadecimal digits for each octet.
pub open spec fn hex_literal(b: Seq<u8>) -> Seq<char> {
    seq!['0', 'x'] + hex_text(b)
}

/// An IPv4 address in dotted notation.
pub open spec fn ip_text(a: Seq<u8>) -> Seq<char> {
    decimal(a[0] as nat) + seq!['.'] + decimal(a[1] as nat) + seq!['.'] + decimal(a[2] as nat)
        + seq!['.'] + decimal(a[3] as nat)
}

/// A value as text: numbers in decimal, octets in hexadecimal, an OID in
/// dotted notation, and the exceptions by their names.
pub open spec fn value_text(v: ValueView) -> Seq<char> {
    match v {
        ValueView::Integer(i) => signed_decimal(i as int),
        ValueView::OctetString(b) => hex_literal(b),
        ValueView::Null => "NULL"@,
        ValueView::ObjectIdentifier(arcs) => dotted(arcs),
        ValueView::IpAddress(a) => ip_text(a),
        ValueView::Counter32(n) => decimal(n as nat),
        ValueView::Gauge32(n) => decimal(n as nat),
        ValueView::TimeTicks(n) => decimal(n as nat),
        ValueView::Opaque(b) => hex_literal(b),
        ValueView::Counter64(n) => decimal(n as nat),
        ValueView::NoSuchObject => "noSuchObject"@,
        ValueView::NoSuchInstance => "noSuchInstance"@,
        ValueView::EndOfMibView => "endOfMibView"@,
        ValueView::Unknown { tag, data } => "unknown("@ + decimal(tag as nat) + ") "@ + hex_literal(
            data,
        ),
    }
}

/// Appends octets as `0x` and hexadecimal digits.
pub fn push_hex_literal(out: &mut String, bytes: &[u8])
    ensures
        final(out)@ == old(out)@ + hex_literal(bytes@),
{
    out.push('0');
    out.push('x');
    let n = bytes.len();
    let mut i: usize = 0;
    let ghost start = out@;
    proof {
        assert(start =~= old(out)@ + seq!['0', 'x']);
    }
    while i < n
        invariant
            i <= n,
            n == bytes@.len(),
            out@ == start + hex_text(bytes@.subrange(0, i as int)),
        decreases n - i,
    {
        push_hex_lower(out, bytes[i]);
        proof {
            let after = bytes@.subrange(0, i + 1);
            assert(after.drop_last() =~= bytes@.subrange(0, i as int));
            assert(after.last() == bytes@[i as int]);
            assert(out@ =~= start + hex_text(after));
        }
        i += 1;
    }
    proof {
        assert(bytes@.subrange(0, n as int) =~= bytes@);
        assert(out@ =~= old(out)@ + hex_literal(bytes@));
    }
}

impl Value {
    /// The value as text.
    pub fn to_string(&self) -> (r: String)
        ensures
            r@ == value_text(self@),
    {
        let mut out = String::new();
        match self {
            Value::Integer(v) => push_signed_decimal(&mut out, *v as i64),
            Value::OctetString(b) => push_hex_literal(&mut out, b.as_slice()),
            Value::Null => out.append("NULL"),
            Value::ObjectIdentifier(o) => {
                return o.to_string();
            },
            Value::IpAddress(a) => {
                push_decimal(&mut out, a[0] as u64);
                out.push('.');
                push_decimal(&mut out, a[1] as u64);
                out.push('.');
                push_decimal(&mut out, a[2] as u64);
                out.push('.');
                push_decimal(&mut out, a[3] as u64);
                proof {
                    assert(out@ =~= ip_text(a@));
                }
            },
            Value::Counter32(n) => push_decimal(&mut out, *n as u64),
            Value::Gauge32(n) => push_decimal(&mut out, *n as u64),
            Value::TimeTicks(n) => push_decimal(&mut out, *n as u64),
            Value::Opaque(b) => push_hex_literal(&mut out, b.as_slice()),
            Value::Counter64(n) => push_decimal(&mut out, *n),
            Value::NoSuchObject => out.append("noSuchObject"),
            Value::NoSuchInstance => out.append("noSuchInstance"),
            Value::EndOfMibView => out.append("endOfMibView"),
            Value::Unknown { tag, data } => {
                out.append("unknown(");
                push_decimal(&mut out, *tag as u64);
                out.append(") ");
                push_hex_literal(&mut out, data.as_slice());
                proof {
                    assert(out@ =~= value_text(self@));
                }
            },
        }
        proof {
            assert(out@ =~= value_text(self@));
        }
        out
    }

    /// Encode to BER: the element of the value comes to stand in front of
    /// what the buffer holds.
    pub fn encode(&self, buf: &mut EncodeBuf)
        ensures
            final(buf)@ == value_ber(self@) + old(buf)@,
    {
        match self {
            Value::Integer(v) => buf.push_integer(*v),
            Value::OctetString(b) => buf.push_octet_string(b.as_slice()),
            Value::Null => buf.push_null(),
            Value::ObjectIdentifier(o) => buf.push_oid(o),
            Value::IpAddress(a) => buf.push_ip_address(*a),
            Value::Counter32(v) => buf.push_unsigned32(tag::application::COUNTER32, *v),
            Value::Gauge32(v) => buf.push_unsigned32(tag::application::GAUGE32, *v),
            Value::TimeTicks(v) => buf.push_unsigned32(tag::application::TIMETICKS, *v),
            Value::Opaque(b) => {
                buf.push_bytes(b.as_slice());
                buf.push_length(b.len());
                buf.push_tag(tag::application::OPAQUE);
                proof {
                    assert(final(buf)@ =~= value_ber(self@) + old(buf)@);
                }
            },
            Value::Counter64(v) => buf.push_integer64(*v),
            Value::NoSuchObject => {
                buf.push_length(0);
                buf.push_tag(tag::context::NO_SUCH_OBJECT);
                proof {
                    assert(final(buf)@ =~= value_ber(self@) + old(buf)@);
                }
            },
            Value::NoSuchInstance => {
                buf.push_length(0);
                buf.push_tag(tag::context::NO_SUCH_INSTANCE);
                proof {
                    assert(final(buf)@ =~= value_ber(self@) + old(buf)@);
                }
            },
            Value::EndOfMibView => {
                buf.push_length(0);
                buf.push_tag(tag::context::END_OF_MIB_VIEW);
                proof {
                    assert(final(buf)@ =~= value_ber(self@) + old(buf)@);
                }
            },
            Value::Unknown { tag, data } => {
                buf.push_bytes(data.as_slice());
                buf.push_length(data.len());
                buf.push_tag(*tag);
                proof {
                    assert(final(buf)@ =~= value_ber(self@) + old(buf)@);
                }
            },
        }
    }

    /// Decode from BER: reads one element and gives the value that it stands
    /// for.
    pub fn decode(decoder: &mut Decoder) -> (r: Result<Value>)
        ensures
            match parse_value(old(decoder).data(), old(decoder).position()) {
                Parsed::Value { value, next } => r matches Ok(v) && v@ == value
                    && final(decoder).moved(*old(decoder), next),
                Parsed::Failed { at, kind } => r matches Err(e) && e == old(decoder).fault(at, kind)
                    && final(decoder).moved(*old(decoder), old(decoder).position()),
            },
    {
        proof {
            reveal(parse_value);
        }
        let begin = decoder.offset();
        match decoder.peek_tag() {
            Some(t) => {
                if t == tag::universal::OCTET_STRING_CONSTRUCTED {
                    return Err(Error::decode(begin, DecodeErrorKind::ConstructedOctetString));
                }
            },
            None => {},
        }
        let ghost before = *decoder;
        let mut probe = decoder.fork();
        let (t, c) = match probe.read_any() {
            Err(e) => {
                return Err(e);
            },
            Ok(pair) => pair,
        };
        let start = probe.offset() - c.len();
        let value = match decode_content(t, c) {
            Ok(v) => v,
            Err((at, kind)) => {
                return Err(Error::decode(start + at, kind));
            },
        };
        decoder.advance_to(&probe);
        Ok(value)
    }

    /// Whether the value is one of the three exception markers.
    pub fn is_exception(&self) -> (r: bool)
        ensures
            r == (self@ is NoSuchObject || self@ is NoSuchInstance || self@ is EndOfMibView),
    {
        match self {
            Value::NoSuchObject => true,
            Value::NoSuchInstance => true,
            Value::EndOfMibView => true,
            _ => false,
        }
    }

    /// Whether the value is the exception endOfMibView.
    pub fn is_end_of_mib_view(&self) -> (r: bool)
        ensures
            r == (self@ is EndOfMibView),
    {
        match self {
            Value::EndOfMibView => true,
            _ => false,
        }
    }

    /// Whether the value is NULL.
    pub fn is_null(&self) -> (r: bool)
        ensures
            r == (self@ is Null),
    {
        match self {
            Value::Null => true,
            _ => false,
        }
    }

    /// A copy of the value.
    pub fn duplicate(&self) -> (r: Value)
        ensures
            r@ == self@,
    {
        match self {
            Value::Integer(v) => Value::Integer(*v),
            Value::OctetString(b) => Value::OctetString(b.clone()),
            Value::Null => Value::Null,
            Value::ObjectIdentifier(o) => Value::ObjectIdentifier(o.duplicate()),
            Value::IpAddress(a) => Value::IpAddress(*a),
            Value::Counter32(v) => Value::Counter32(*v),
            Value::Gauge32(v) => Value::Gauge32(*v),
            Value::TimeTicks(v) => Value::TimeTicks(*v),
            Value::Opaque(b) => Value::Opaque(b.clone()),
            Value::Counter64(v) => Value::Counter64(*v),
            Value::NoSuchObject => Value::NoSuchObject,
            Value::NoSuchInstance => Value::NoSuchInstance,
            Value::EndOfMibView => Value::EndOfMibView,
            Value::Unknown { tag, data } => Value::Unknown { tag: *tag, data: data.clone() },
        }
    }
}

/// The value that a content with the tag `t` stands for; a fault comes with
/// its place in the content.
fn decode_content(t: u8, c: &[u8]) -> (r: core::result::Result<Value, (usize, DecodeErrorKind)>)
    ensures
        match value_of(t, c@) {
            Parsed::Value { value, next } => r matches Ok(v) && v@ == value,
            Parsed::Failed { at, kind } => r matches Err(e) && e == (at as usize, kind) && 0 <= at
                <= c@.len(),
        },
{
    if t == tag::universal::INTEGER {
        match decode_integer_content(c) {
            Ok(v) => Ok(Value::Integer(v)),
            Err(kind) => Err((0, kind)),
        }
    } else if t == tag::universal::OCTET_STRING {
        Ok(Value::OctetString(vstd::slice::slice_to_vec(c)))
    } else if t == tag::universal::NULL {
        if c.len() != 0 {
            Err((0, DecodeErrorKind::InvalidNull))
        } else {
            Ok(Value::Null)
        }
    } else if t == tag::universal::OBJECT_IDENTIFIER {
        match Oid::from_ber(c) {
            Ok(o) => Ok(Value::ObjectIdentifier(o)),
            Err(e) => match e {
                Error::Decode { offset, kind } => Err((offset, kind)),
                _ => Err((0, DecodeErrorKind::InvalidOidEncoding)),
            },
        }
    } else if t == tag::application::IP_ADDRESS {
        if c.len() != 4 {
            Err((0, DecodeErrorKind::InvalidIpAddressLength { length: c.len() }))
        } else {
            let a: [u8; 4] = [c[0], c[1], c[2], c[3]];
            proof {
                assert(a@ =~= c@);
            }
            Ok(Value::IpAddress(a))
        }
    } else if t == tag::application::COUNTER32 {
        match decode_unsigned32_content(c) {
            Ok(v) => Ok(Value::Counter32(v)),
            Err(kind) => Err((0, kind)),
        }
    } else if t == tag::application::GAUGE32 {
        match decode_unsigned32_content(c) {
            Ok(v) => Ok(Value::Gauge32(v)),
            Err(kind) => Err((0, kind)),
        }
    } else if t == tag::application::TIMETICKS {
        match decode_unsigned32_content(c) {
            Ok(v) => Ok(Value::TimeTicks(v)),
            Err(kind) => Err((0, kind)),
        }
    } else if t == tag::application::OPAQUE {
        Ok(Value::Opaque(vstd::slice::slice_to_vec(c)))
    } else if t == tag::application::COUNTER64 {
        match decode_counter64_content(c) {
            Ok(v) => Ok(Value::Counter64(v)),
            Err(kind) => Err((0, kind)),
        }
    } else if t == tag::context::NO_SUCH_OBJECT {
        Ok(Value::NoSuchObject)
    } else if t == tag::context::NO_SUCH_INSTANCE {
        Ok(Value::NoSuchInstance)
    } else if t == tag::context::END_OF_MIB_VIEW {
        Ok(Value::EndOfMibView)
    } else {
        Ok(Value::Unknown { tag: t, data: vstd::slice::slice_to_vec(c) })
    }
}

} // verus!
