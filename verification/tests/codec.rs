use async_snmp::ber::decode::{
    decode_counter64_content, decode_integer_content, decode_unsigned32_content,
};
use async_snmp::ber::encode::{integer_content, unsigned32_content, unsigned64_content, EncodeBuf};
use async_snmp::ber::length::{decode_length, encode_length};
use async_snmp::ber::tag::{is_constructed, tag_class, tag_number};
use async_snmp::ber::Decoder;
use async_snmp::error::{DecodeErrorKind, Error, OidErrorKind};
use async_snmp::oid::{Comparison, Oid};
use async_snmp::pdu::{Pdu, PduType};
use async_snmp::value::Value;
use async_snmp::varbind::VarBind;

fn decode_error(offset: usize, kind: DecodeErrorKind) -> Error {
    Error::Decode { offset, kind }
}

#[test]
fn length_short_form_boundaries() {
    assert_eq!(encode_length(0), vec![0x00]);
    assert_eq!(encode_length(1), vec![0x01]);
    assert_eq!(encode_length(127), vec![0x7F]);
}

#[test]
fn length_long_form_boundaries() {
    assert_eq!(encode_length(128), vec![0x81, 0x80]);
    assert_eq!(encode_length(255), vec![0x81, 0xFF]);
    assert_eq!(encode_length(256), vec![0x82, 0x01, 0x00]);
    assert_eq!(encode_length(65535), vec![0x82, 0xFF, 0xFF]);
    assert_eq!(encode_length(65536), vec![0x83, 0x01, 0x00, 0x00]);
}

#[test]
fn length_with_four_octets() {
    assert_eq!(encode_length(0x0100_0000), vec![0x84, 0x01, 0x00, 0x00, 0x00]);
    assert_eq!(decode_length(&[0x84, 0x01, 0x00, 0x00, 0x00], 0), Ok((0x0100_0000, 5)));
    assert_eq!(decode_length(&[0x84, 0x00, 0x00, 0x00, 0x05], 0), Ok((5, 5)));
}

#[test]
fn length_decodes_what_it_encodes() {
    for n in [0usize, 1, 127, 128, 255, 256, 1000, 65535, 65536, 0x00FF_FFFF, 0x0100_0000] {
        let octets = encode_length(n);
        assert_eq!(decode_length(&octets, 0), Ok((n, octets.len())));
    }
}

#[test]
fn length_faults() {
    assert_eq!(decode_length(&[], 0), Err(DecodeErrorKind::TruncatedData));
    assert_eq!(decode_length(&[0x80], 0), Err(DecodeErrorKind::IndefiniteLength));
    assert_eq!(
        decode_length(&[0x85, 1, 2, 3, 4, 5], 0),
        Err(DecodeErrorKind::LengthTooLong { octets: 5 })
    );
    assert_eq!(decode_length(&[0x82, 0x01], 0), Err(DecodeErrorKind::TruncatedData));
    assert_eq!(
        decode_length(&[0x84, 0x01, 0x00, 0x00, 0x01], 0),
        Err(DecodeErrorKind::LengthExceedsMax { length: 0x0100_0001, max: 0x0100_0000 })
    );
}

#[test]
fn integer_minimal_encoding() {
    assert_eq!(integer_content(0), vec![0x00]);
    assert_eq!(integer_content(1), vec![0x01]);
    assert_eq!(integer_content(-1), vec![0xFF]);
    assert_eq!(integer_content(127), vec![0x7F]);
    assert_eq!(integer_content(-128), vec![0x80]);
    assert_eq!(integer_content(128), vec![0x00, 0x80]);
    assert_eq!(integer_content(-129), vec![0xFF, 0x7F]);
    assert_eq!(integer_content(i32::MIN), vec![0x80, 0x00, 0x00, 0x00]);
    assert_eq!(integer_content(i32::MAX), vec![0x7F, 0xFF, 0xFF, 0xFF]);
}

#[test]
fn integer_round_trip_at_boundaries() {
    for v in [0, 1, -1, 127, -128, 128, -129, 32767, -32768, 8388607, -8388608, i32::MIN, i32::MAX] {
        let mut buf = EncodeBuf::new();
        buf.push_integer(v);
        let bytes = buf.finish_vec();
        let mut decoder = Decoder::from_slice(&bytes);
        assert_eq!(decoder.read_integer(), Ok(v));
        assert!(decoder.is_empty());
    }
}

#[test]
fn integer_content_faults() {
    assert_eq!(decode_integer_content(&[]), Err(DecodeErrorKind::ZeroLengthInteger));
    assert_eq!(
        decode_integer_content(&[1, 2, 3, 4, 5, 6]),
        Err(DecodeErrorKind::IntegerOverflow)
    );
    assert_eq!(
        decode_integer_content(&[0x01, 0x00, 0x00, 0x00, 0x00]),
        Err(DecodeErrorKind::IntegerOverflow)
    );
    // a fifth octet that only repeats the sign is accepted
    assert_eq!(decode_integer_content(&[0x00, 0x7F, 0xFF, 0xFF, 0xFF]), Ok(i32::MAX));
    assert_eq!(decode_integer_content(&[0xFF, 0x80, 0x00, 0x00, 0x00]), Ok(i32::MIN));
    assert_eq!(decode_integer_content(&[0x00, 0x00, 0x2A]), Ok(42));
}

#[test]
fn unsigned_content_encoding_and_faults() {
    assert_eq!(unsigned32_content(u32::MAX), vec![0x00, 0xFF, 0xFF, 0xFF, 0xFF]);
    assert_eq!(unsigned64_content(0), vec![0x00]);
    assert_eq!(
        unsigned64_content(u64::MAX),
        vec![0x00, 0xFF, 0xFF, 0xFF, 0xFF, 0xFF, 0xFF, 0xFF, 0xFF]
    );
    assert_eq!(decode_unsigned32_content(&[0x00, 0xFF, 0xFF, 0xFF, 0xFF]), Ok(u32::MAX));
    assert_eq!(decode_unsigned32_content(&[0xFF]), Ok(255));
    assert_eq!(decode_unsigned32_content(&[]), Err(DecodeErrorKind::ZeroLengthInteger));
    assert_eq!(
        decode_unsigned32_content(&[0x01, 0x00, 0x00, 0x00, 0x00]),
        Err(DecodeErrorKind::IntegerOverflow)
    );
    assert_eq!(
        decode_counter64_content(&[0x00, 0xFF, 0xFF, 0xFF, 0xFF, 0xFF, 0xFF, 0xFF, 0xFF]),
        Ok(u64::MAX)
    );
    assert_eq!(
        decode_counter64_content(&[0; 10]),
        Err(DecodeErrorKind::Integer64TooLong { length: 10 })
    );
    assert_eq!(
        decode_counter64_content(&[0x01, 0, 0, 0, 0, 0, 0, 0, 0]),
        Err(DecodeErrorKind::IntegerOverflow)
    );
}

#[test]
fn tag_parts() {
    assert!(is_constructed(0x30));
    assert!(!is_constructed(0x02));
    assert!(is_constructed(0xA2));
    assert_eq!(tag_class(0x30), 0x00);
    assert_eq!(tag_class(0x41), 0x40);
    assert_eq!(tag_class(0xA0), 0x80);
    assert_eq!(tag_class(0xC1), 0xC0);
    assert_eq!(tag_number(0x30), 0x10);
    assert_eq!(tag_number(0xA5), 0x05);
}

#[test]
fn oid_minimum_two_arcs() {
    let oid = Oid::from_slice(&[1, 3]);
    assert_eq!(oid.to_ber(), vec![0x2B]);
    assert_eq!(Oid::from_ber(&[0x2B]), Ok(oid));
}

#[test]
fn oid_first_arc_two() {
    let oid = Oid::from_slice(&[2, 999, 1]);
    assert_eq!(oid.to_ber(), vec![0x88, 0x37, 0x01]);
    assert_eq!(Oid::from_ber(&[0x88, 0x37, 0x01]), Ok(oid));
}

#[test]
fn oid_with_128_arcs_round_trips() {
    let mut arcs = vec![1u32, 3];
    for i in 0..126u32 {
        arcs.push(i * 1000003);
    }
    let oid = Oid::from_slice(&arcs);
    assert_eq!(oid.len(), 128);
    assert!(oid.validate().is_ok());
    assert_eq!(Oid::from_ber(&oid.to_ber()), Ok(oid));
}

#[test]
fn oid_with_129_arcs_is_refused() {
    let mut arcs = vec![1u32, 3];
    for _ in 0..127 {
        arcs.push(1);
    }
    let oid = Oid::from_slice(&arcs);
    assert_eq!(
        oid.validate(),
        Err(Error::InvalidOid { kind: OidErrorKind::TooManyArcs { count: 129, max: 128 }, input: None })
    );
    assert_eq!(
        Oid::from_ber(&oid.to_ber()),
        Err(decode_error(0, DecodeErrorKind::OidTooLong { count: 129, max: 128 }))
    );
}

#[test]
fn oid_round_trip_with_large_arcs() {
    for arcs in [
        vec![0u32, 0],
        vec![0, 39],
        vec![1, 0],
        vec![1, 39, u32::MAX],
        vec![2, 0],
        vec![2, 40],
        vec![2, u32::MAX],
        vec![1, 3, 6, 1, 4, 1, 2021, 127, 128, 16383, 16384],
    ] {
        let oid = Oid::from_slice(&arcs);
        assert_eq!(Oid::from_ber(&oid.to_ber()), Ok(oid));
    }
}

#[test]
fn oid_validation_faults() {
    let fault = |arcs: &[u32]| match Oid::from_slice(arcs).validate() {
        Err(Error::InvalidOid { kind, .. }) => Some(kind),
        _ => None,
    };
    assert_eq!(fault(&[]), Some(OidErrorKind::Empty));
    assert_eq!(fault(&[1]), Some(OidErrorKind::TooShort));
    assert_eq!(fault(&[3, 1]), Some(OidErrorKind::InvalidFirstArc(3)));
    assert_eq!(fault(&[1, 40]), Some(OidErrorKind::InvalidSecondArc { first: 1, second: 40 }));
    assert_eq!(fault(&[2, 40]), None);
}

#[test]
fn oid_ber_faults() {
    // a sub-identifier that starts with a padding octet
    assert_eq!(
        Oid::from_ber(&[0x2B, 0x80, 0x01]),
        Err(decode_error(1, DecodeErrorKind::InvalidOidEncoding))
    );
    // data that ends inside a sub-identifier
    assert_eq!(
        Oid::from_ber(&[0x2B, 0x06, 0x81]),
        Err(decode_error(2, DecodeErrorKind::InvalidOidEncoding))
    );
    // a sub-identifier above 32 bits
    assert_eq!(
        Oid::from_ber(&[0x2B, 0x90, 0x80, 0x80, 0x80, 0x00]),
        Err(decode_error(1, DecodeErrorKind::IntegerOverflow))
    );
    assert_eq!(Oid::from_ber(&[]), Ok(Oid::empty()));
}

#[test]
fn oid_order_is_lexicographic() {
    let a = Oid::from_slice(&[1, 3, 6, 1, 2]);
    let b = Oid::from_slice(&[1, 3, 6, 1, 2, 1]);
    let c = Oid::from_slice(&[1, 3, 6, 1, 3]);
    assert_eq!(a.compare(&b), Comparison::Less);
    assert_eq!(b.compare(&c), Comparison::Less);
    assert_eq!(a.compare(&c), Comparison::Less);
    assert_eq!(c.compare(&a), Comparison::Greater);
    assert_eq!(b.compare(&b), Comparison::Equal);
    assert!(a.precedes(&b) && !b.precedes(&a) && !a.precedes(&a));
    assert!(a < b && b < c);
    assert!(b.starts_with(&a) && !a.starts_with(&b) && !c.starts_with(&a));
    assert!(Oid::from_slice(&[1, 3, 6, 1, 2, 1, 200]) > Oid::from_slice(&[1, 3, 6, 1, 2, 1, 3, 9]));
}

#[test]
fn oid_order_agrees_with_order_of_sub_identifiers() {
    let oids = [
        vec![0u32, 5],
        vec![0, 39],
        vec![1, 0],
        vec![1, 3, 6],
        vec![1, 39],
        vec![2, 0],
        vec![2, 999, 1],
    ];
    let subids = |arcs: &Vec<u32>| {
        let mut ids = vec![40 * arcs[0] as u64 + arcs[1] as u64];
        ids.extend(arcs[2..].iter().map(|a| *a as u64));
        ids
    };
    for x in &oids {
        for y in &oids {
            let by_arcs = Oid::from_slice(x).precedes(&Oid::from_slice(y));
            assert_eq!(by_arcs, subids(x) < subids(y));
        }
    }
}

#[test]
fn oid_parent_child_and_text() {
    let oid = Oid::from_slice(&[1, 3, 6, 1]);
    assert_eq!(oid.child(4), Oid::from_slice(&[1, 3, 6, 1, 4]));
    assert_eq!(oid.parent(), Some(Oid::from_slice(&[1, 3, 6])));
    assert_eq!(Oid::empty().parent(), None);
    assert_eq!(oid.to_string(), "1.3.6.1");
    assert_eq!(Oid::from_slice(&[2, 999, 4294967295]).to_string(), "2.999.4294967295");
    assert_eq!(Oid::empty().to_string(), "");
    assert_eq!(oid.arcs(), &[1, 3, 6, 1]);
}

fn all_values() -> Vec<Value> {
    vec![
        Value::Integer(0),
        Value::Integer(-1),
        Value::Integer(i32::MIN),
        Value::Integer(i32::MAX),
        Value::OctetString(vec![]),
        Value::OctetString(b"Linux".to_vec()),
        Value::OctetString(vec![0xAB; 300]),
        Value::Null,
        Value::ObjectIdentifier(Oid::from_slice(&[1, 3, 6, 1, 4, 1])),
        Value::ObjectIdentifier(Oid::empty()),
        Value::IpAddress([192, 168, 1, 1]),
        Value::Counter32(0),
        Value::Counter32(u32::MAX),
        Value::Gauge32(128),
        Value::TimeTicks(123456),
        Value::Opaque(vec![1, 2, 3]),
        Value::Counter64(0),
        Value::Counter64(u64::MAX),
        Value::NoSuchObject,
        Value::NoSuchInstance,
        Value::EndOfMibView,
        Value::Unknown { tag: 0x45, data: vec![9, 8, 7] },
    ]
}

#[test]
fn every_value_round_trips() {
    for value in all_values() {
        let mut buf = EncodeBuf::new();
        value.encode(&mut buf);
        let bytes = buf.finish_vec();
        let mut decoder = Decoder::from_slice(&bytes);
        assert_eq!(Value::decode(&mut decoder), Ok(value));
        assert!(decoder.is_empty());
    }
}

#[test]
fn value_wire_forms() {
    let encode = |v: Value| {
        let mut buf = EncodeBuf::new();
        v.encode(&mut buf);
        buf.finish_vec()
    };
    assert_eq!(encode(Value::Integer(42)), vec![0x02, 0x01, 0x2A]);
    assert_eq!(encode(Value::Null), vec![0x05, 0x00]);
    assert_eq!(encode(Value::IpAddress([10, 0, 0, 1])), vec![0x40, 0x04, 10, 0, 0, 1]);
    assert_eq!(encode(Value::Counter32(256)), vec![0x41, 0x02, 0x01, 0x00]);
    assert_eq!(encode(Value::Gauge32(255)), vec![0x42, 0x02, 0x00, 0xFF]);
    assert_eq!(encode(Value::TimeTicks(1)), vec![0x43, 0x01, 0x01]);
    assert_eq!(encode(Value::Opaque(vec![7])), vec![0x44, 0x01, 0x07]);
    assert_eq!(encode(Value::Counter64(1)), vec![0x46, 0x01, 0x01]);
    assert_eq!(encode(Value::NoSuchObject), vec![0x80, 0x00]);
    assert_eq!(encode(Value::NoSuchInstance), vec![0x81, 0x00]);
    assert_eq!(encode(Value::EndOfMibView), vec![0x82, 0x00]);
    assert_eq!(encode(Value::OctetString(b"hi".to_vec())), vec![0x04, 0x02, b'h', b'i']);
}

#[test]
fn value_decode_faults() {
    let fault = |bytes: &[u8]| {
        let mut decoder = Decoder::from_slice(bytes);
        Value::decode(&mut decoder)
    };
    assert_eq!(fault(&[]), Err(decode_error(0, DecodeErrorKind::TruncatedData)));
    assert_eq!(fault(&[0x24, 0x00]), Err(decode_error(0, DecodeErrorKind::ConstructedOctetString)));
    assert_eq!(fault(&[0x05, 0x01, 0x00]), Err(decode_error(2, DecodeErrorKind::InvalidNull)));
    assert_eq!(
        fault(&[0x40, 0x03, 1, 2, 3]),
        Err(decode_error(2, DecodeErrorKind::InvalidIpAddressLength { length: 3 }))
    );
    assert_eq!(fault(&[0x02, 0x00]), Err(decode_error(2, DecodeErrorKind::ZeroLengthInteger)));
    assert_eq!(fault(&[0x04, 0x05, 1, 2]), Err(decode_error(2, DecodeErrorKind::TlvOverflow)));
    assert_eq!(fault(&[0x04, 0x80]), Err(decode_error(1, DecodeErrorKind::IndefiniteLength)));
    assert_eq!(
        fault(&[0x06, 0x02, 0x2B, 0x80]),
        Err(decode_error(3, DecodeErrorKind::InvalidOidEncoding))
    );
    // a fault leaves the decoder where it was
    let bytes = [0x05, 0x01, 0x00];
    let mut decoder = Decoder::from_slice(&bytes);
    assert!(Value::decode(&mut decoder).is_err());
    assert_eq!(decoder.offset(), 0);
}

#[test]
fn unknown_with_a_known_tag_does_not_round_trip() {
    let value = Value::Unknown { tag: 0x05, data: vec![1] };
    let mut buf = EncodeBuf::new();
    value.encode(&mut buf);
    let bytes = buf.finish_vec();
    let mut decoder = Decoder::from_slice(&bytes);
    assert_eq!(Value::decode(&mut decoder), Err(decode_error(2, DecodeErrorKind::InvalidNull)));
}

#[test]
fn typed_readers_check_the_tag() {
    let bytes = [0x04, 0x01, 0x00];
    let mut decoder = Decoder::from_slice(&bytes);
    assert_eq!(
        decoder.read_integer(),
        Err(decode_error(0, DecodeErrorKind::UnexpectedTag { expected: 0x02, actual: 0x04 }))
    );
    assert_eq!(decoder.read_octet_string(), Ok(vec![0x00]));
    assert!(decoder.is_empty());
    assert_eq!(decoder.read_null(), Err(decode_error(3, DecodeErrorKind::TruncatedData)));
}

#[test]
fn typed_readers_read_their_types() {
    let mut buf = EncodeBuf::new();
    buf.push_ip_address([1, 2, 3, 4]);
    buf.push_integer64(1 << 40);
    buf.push_unsigned32(0x43, 4_000_000_000);
    buf.push_oid(&Oid::from_slice(&[1, 3, 6]));
    buf.push_null();
    let bytes = buf.finish();
    let mut decoder = Decoder::new(&bytes);
    assert_eq!(decoder.read_null(), Ok(()));
    assert_eq!(decoder.read_oid(), Ok(Oid::from_slice(&[1, 3, 6])));
    assert_eq!(decoder.read_unsigned32(0x43), Ok(4_000_000_000));
    assert_eq!(decoder.read_counter64(), Ok(1 << 40));
    assert_eq!(decoder.read_ip_address(), Ok([1, 2, 3, 4]));
    assert_eq!(decoder.remaining(), 0);
}

#[test]
fn sequence_faults_carry_absolute_offsets() {
    // SEQUENCE { INTEGER 1, NULL with one content octet }
    let bytes = [0x30, 0x06, 0x02, 0x01, 0x01, 0x05, 0x01, 0x00];
    let mut decoder = Decoder::from_slice(&bytes);
    let mut inner = decoder.read_sequence().unwrap();
    assert_eq!(inner.offset(), 2);
    assert_eq!(inner.read_integer(), Ok(1));
    assert_eq!(inner.read_null(), Err(decode_error(7, DecodeErrorKind::InvalidNull)));
    assert!(decoder.is_empty());
}

#[test]
fn encode_buf_prepends() {
    let mut buf = EncodeBuf::new();
    assert!(buf.is_empty());
    buf.push_bytes(&[3, 4]);
    buf.push_byte(2);
    buf.push_tag(1);
    assert_eq!(buf.len(), 4);
    assert_eq!(buf.finish_vec(), vec![1, 2, 3, 4]);
}

#[test]
fn encode_constructed_wraps_what_the_closure_writes() {
    let mut buf = EncodeBuf::with_capacity(16);
    buf.push_byte(0xEE);
    buf.push_constructed(0xA2, |b| {
        b.push_null();
    });
    assert_eq!(buf.finish_vec(), vec![0xA2, 0x02, 0x05, 0x00, 0xEE]);
}

fn sample_pdu(pdu_type: PduType) -> Pdu {
    Pdu {
        pdu_type,
        request_id: 12345,
        error_status: 0,
        error_index: 0,
        varbinds: vec![
            VarBind::new(Oid::from_slice(&[1, 3, 6, 1, 2, 1, 1, 1, 0]), Value::OctetString(b"x".to_vec())),
            VarBind::new(Oid::from_slice(&[1, 3, 6, 1, 2, 1, 1, 3, 0]), Value::TimeTicks(99)),
        ],
    }
}

#[test]
fn every_pdu_type_round_trips() {
    for pdu_type in [
        PduType::GetRequest,
        PduType::GetNextRequest,
        PduType::Response,
        PduType::SetRequest,
        PduType::TrapV1,
        PduType::GetBulkRequest,
        PduType::InformRequest,
        PduType::TrapV2,
        PduType::Report,
    ] {
        let pdu = sample_pdu(pdu_type);
        let mut buf = EncodeBuf::new();
        pdu.encode(&mut buf);
        let bytes = buf.finish_vec();
        assert_eq!(bytes[0], pdu_type.tag());
        assert_eq!(PduType::from_tag(bytes[0]), Some(pdu_type));
        let mut decoder = Decoder::from_slice(&bytes);
        assert_eq!(Pdu::decode(&mut decoder), Ok(pdu));
    }
}

#[test]
fn pdu_tags() {
    assert_eq!(PduType::GetRequest.tag(), 0xA0);
    assert_eq!(PduType::GetNextRequest.tag(), 0xA1);
    assert_eq!(PduType::Response.tag(), 0xA2);
    assert_eq!(PduType::SetRequest.tag(), 0xA3);
    assert_eq!(PduType::TrapV1.tag(), 0xA4);
    assert_eq!(PduType::GetBulkRequest.tag(), 0xA5);
    assert_eq!(PduType::InformRequest.tag(), 0xA6);
    assert_eq!(PduType::TrapV2.tag(), 0xA7);
    assert_eq!(PduType::Report.tag(), 0xA8);
    assert_eq!(PduType::from_tag(0xA9), None);
}

#[test]
fn pdu_with_error_fields_round_trips() {
    let mut pdu = sample_pdu(PduType::Response);
    pdu.error_status = 17;
    pdu.error_index = 2;
    pdu.request_id = -7;
    let mut buf = EncodeBuf::new();
    pdu.encode(&mut buf);
    let bytes = buf.finish_vec();
    let mut decoder = Decoder::from_slice(&bytes);
    assert_eq!(Pdu::decode(&mut decoder), Ok(pdu));
}

#[test]
fn getbulk_with_zero_counts() {
    let pdu = Pdu::get_bulk(9, 0, 0, vec![VarBind::null(Oid::from_slice(&[1, 3, 6, 1]))]);
    let mut buf = EncodeBuf::new();
    pdu.encode(&mut buf);
    let bytes = buf.finish_vec();
    let mut decoder = Decoder::from_slice(&bytes);
    let decoded = Pdu::decode(&mut decoder).unwrap();
    assert_eq!(decoded.error_status, 0);
    assert_eq!(decoded.error_index, 0);
    assert_eq!(decoded, pdu);
    // the response to it may be empty
    let response = Pdu::new(PduType::Response, 9, vec![]);
    let mut buf = EncodeBuf::new();
    response.encode(&mut buf);
    let bytes = buf.finish_vec();
    let mut decoder = Decoder::from_slice(&bytes);
    assert_eq!(Pdu::decode(&mut decoder), Ok(response));
}

fn encode_fields(tag: u8, request_id: i32, status: i32, index: i32, varbinds: &[VarBind]) -> Vec<u8> {
    let mut buf = EncodeBuf::new();
    buf.push_constructed(tag, |b| {
        async_snmp::varbind::encode_varbind_list(b, varbinds);
        b.push_integer(index);
        b.push_integer(status);
        b.push_integer(request_id);
    });
    buf.finish_vec()
}

#[test]
fn pdu_field_faults() {
    let decode = |bytes: &[u8]| {
        let mut decoder = Decoder::from_slice(bytes);
        Pdu::decode(&mut decoder)
    };
    let vb = [VarBind::null(Oid::from_slice(&[1, 3]))];
    assert_eq!(
        decode(&encode_fields(0xA2, 1, 5, -1, &vb)),
        Err(decode_error(8, DecodeErrorKind::NegativeErrorIndex { value: -1 }))
    );
    assert_eq!(
        decode(&encode_fields(0xA2, 1, 5, 2, &vb)),
        Err(decode_error(8, DecodeErrorKind::ErrorIndexOutOfBounds { index: 2, varbind_count: 1 }))
    );
    assert_eq!(
        decode(&encode_fields(0xA5, 1, -1, 0, &vb)),
        Err(decode_error(5, DecodeErrorKind::NegativeNonRepeaters { value: -1 }))
    );
    assert_eq!(
        decode(&encode_fields(0xA5, 1, 0, -3, &vb)),
        Err(decode_error(8, DecodeErrorKind::NegativeMaxRepetitions { value: -3 }))
    );
    assert_eq!(
        decode(&encode_fields(0xA9, 1, 0, 0, &vb)),
        Err(decode_error(0, DecodeErrorKind::UnknownPduType(0xA9)))
    );
    assert!(decode(&encode_fields(0xA2, 1, 5, 1, &vb)).is_ok());
    assert!(decode(&encode_fields(0xA5, 1, 3, 50, &vb)).is_ok());
}

#[test]
fn raw_octets_go_in_front_of_the_buffer() {
    let mut buf = EncodeBuf::new();
    buf.push_bytes_raw(&[3, 4]);
    buf.push_bytes_raw(&[1, 2]);
    buf.push_bytes_raw(&[]);
    assert_eq!(buf.len(), 4);
    assert_eq!(buf.finish_vec(), vec![1, 2, 3, 4]);
}

#[test]
fn the_size_of_a_binding_is_the_length_of_its_encoding() {
    for value in all_values() {
        let vb = VarBind::new(Oid::from_slice(&[1, 3, 6, 1, 2, 1, 1, 1, 0]), value);
        let mut buf = EncodeBuf::new();
        vb.encode(&mut buf);
        assert_eq!(vb.encoded_size(), buf.len());
    }
    // SEQUENCE, OID 1.3.6.1 and NULL: 2 + 5 + 2 octets.
    assert_eq!(VarBind::null(Oid::from_slice(&[1, 3, 6, 1])).encoded_size(), 9);
}

#[test]
fn null_and_the_exceptions_are_told_apart() {
    assert!(Value::Null.is_null());
    assert!(!Value::NoSuchObject.is_null());
    assert!(!Value::Integer(0).is_null());
    assert!(!Value::OctetString(Vec::new()).is_null());
    assert!(Value::NoSuchObject.is_exception());
    assert!(Value::NoSuchInstance.is_exception());
    assert!(Value::EndOfMibView.is_exception());
    assert!(!Value::Null.is_exception());
    assert!(Value::EndOfMibView.is_end_of_mib_view());
    assert!(!Value::NoSuchObject.is_end_of_mib_view());
}
