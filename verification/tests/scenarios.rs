use async_snmp::client::request::{check_response, get_request};
use async_snmp::error::{DecodeErrorKind, Error, ErrorStatus};
use async_snmp::message::{CommunityMessage, SecurityLevel};
use async_snmp::oid::Oid;
use async_snmp::pdu::{Pdu, PduType};
use async_snmp::transport::shared::extract_request_id;
use async_snmp::util::decode_hex;
use async_snmp::v3::auth::LocalizedKey;
use async_snmp::v3::engine::{is_unknown_engine_id_report, parse_discovery_response, Report};
use async_snmp::v3::message::{MsgFlags, MsgGlobalData, ScopedData, ScopedPdu, V3Message};
use async_snmp::v3::privacy::PrivKey;
use async_snmp::v3::transform::{inbound, outbound, Outbound, UsmUser};
use async_snmp::v3::usm::UsmSecurityParams;
use async_snmp::v3::{AuthProtocol, PrivProtocol};
use async_snmp::value::Value;
use async_snmp::varbind::VarBind;
use async_snmp::version::Version;

fn sys_descr() -> Oid {
    Oid::from_slice(&[1, 3, 6, 1, 2, 1, 1, 1, 0])
}

#[test]
fn v2c_get_sys_descr() {
    let request = CommunityMessage::new(Version::V2c, b"public".to_vec(), get_request(42, &[sys_descr()]));
    let bytes = request.encode();
    assert_eq!(
        &bytes[..],
        &[
            0x30, 0x26, 0x02, 0x01, 0x01, 0x04, 0x06, b'p', b'u', b'b', b'l', b'i', b'c', 0xA0, 0x19,
            0x02, 0x01, 0x2A, 0x02, 0x01, 0x00, 0x02, 0x01, 0x00, 0x30, 0x0E, 0x30, 0x0C, 0x06, 0x08,
            0x2B, 0x06, 0x01, 0x02, 0x01, 0x01, 0x01, 0x00, 0x05, 0x00,
        ][..]
    );
    // the agent decodes the request and answers
    let received = CommunityMessage::decode(&bytes).unwrap();
    assert_eq!(received, request);
    assert_eq!(received.pdu.pdu_type, PduType::GetRequest);
    let answer = CommunityMessage::new(
        Version::V2c,
        b"public".to_vec(),
        Pdu::new(
            PduType::Response,
            received.pdu.request_id,
            vec![VarBind::new(sys_descr(), Value::OctetString(b"Linux".to_vec()))],
        ),
    );
    let wire = answer.encode_vec();
    assert_eq!(extract_request_id(&wire), Some(42));
    // the client decodes the answer and checks it
    let response = CommunityMessage::decode_slice(&wire).unwrap();
    assert_eq!(response.pdu.error_status, ErrorStatus::NoError.as_i32());
    assert_eq!(
        check_response(Version::V2c, 42, response.version, &response.pdu, None),
        Ok(vec![VarBind::new(sys_descr(), Value::OctetString(b"Linux".to_vec()))])
    );
}

#[test]
fn community_may_be_empty() {
    let message = CommunityMessage::new(Version::V1, Vec::new(), get_request(1, &[sys_descr()]));
    let bytes = message.encode_vec();
    assert_eq!(&bytes[2..7], &[0x02, 0x01, 0x00, 0x04, 0x00]);
    assert_eq!(CommunityMessage::decode_slice(&bytes), Ok(message));
}

#[test]
fn community_message_faults() {
    let mut bytes = CommunityMessage::new(Version::V2c, b"c".to_vec(), get_request(1, &[])).encode_vec();
    bytes[4] = 3;
    assert_eq!(
        CommunityMessage::decode_slice(&bytes),
        Err(Error::Decode { offset: 2, kind: DecodeErrorKind::UnknownVersion(3) })
    );
    bytes[4] = 1;
    bytes[5] = 0x24;
    assert_eq!(
        CommunityMessage::decode_slice(&bytes),
        Err(Error::Decode { offset: 5, kind: DecodeErrorKind::ConstructedOctetString })
    );
    assert_eq!(
        CommunityMessage::decode_slice(&[0x31, 0x00]),
        Err(Error::Decode {
            offset: 0,
            kind: DecodeErrorKind::UnexpectedTag { expected: 0x30, actual: 0x31 },
        })
    );
}

#[test]
fn v3_discovery_then_auth_priv_get() {
    // the client does not know the engine: it sends an empty request without security
    let nobody = UsmUser { user_name: Vec::new(), auth_key: None, priv_key: None };
    let discovery = outbound(
        Outbound {
            msg_id: 1,
            msg_max_size: 65507,
            reportable: true,
            level: SecurityLevel::NoAuthNoPriv,
            engine_boots: 0,
            engine_time: 0,
            salt: 0,
        },
        &[],
        &nobody,
        &ScopedPdu::new(Vec::new(), Vec::new(), Pdu::new(PduType::GetRequest, 1, vec![])),
    )
    .unwrap();
    assert_eq!(extract_request_id(&discovery), Some(1));
    let (seen, _) = V3Message::decode(&discovery).unwrap();
    assert!(seen.security_params.engine_id.is_empty());
    assert_eq!(seen.global_data.msg_flags, MsgFlags { reportable: true, auth: false, privacy: false });

    // the agent answers with a report that names its engine
    let engine_id = decode_hex("80001f8880e9630000d61ff449").unwrap();
    let report = V3Message {
        global_data: MsgGlobalData {
            msg_id: 1,
            msg_max_size: 65507,
            msg_flags: MsgFlags { reportable: false, auth: false, privacy: false },
            msg_security_model: 3,
        },
        security_params: UsmSecurityParams {
            engine_id: engine_id.clone(),
            engine_boots: 3,
            engine_time: 12345,
            ..UsmSecurityParams::empty()
        },
        data: ScopedData::Plaintext(ScopedPdu::new(
            engine_id.clone(),
            Vec::new(),
            Pdu::new(
                PduType::Report,
                1,
                vec![VarBind::new(Report::UnknownEngineIds.oid(), Value::Counter32(1))],
            ),
        )),
    };
    let (received, _) = V3Message::decode(&report.encode().0).unwrap();
    match &received.data {
        ScopedData::Plaintext(sp) => assert!(is_unknown_engine_id_report(&sp.pdu)),
        ScopedData::Encrypted(_) => panic!("a report in the clear was expected"),
    }
    let engine = parse_discovery_response(&received, 1000).unwrap();
    assert_eq!((engine.engine_id.clone(), engine.engine_boots, engine.engine_time), (engine_id.clone(), 3, 12345));

    // the client sends the request again, authenticated and encrypted
    let user = UsmUser {
        user_name: b"admin".to_vec(),
        auth_key: Some(LocalizedKey::from_password(AuthProtocol::Sha256, b"authpass123", &engine_id)),
        priv_key: Some(PrivKey::from_password(
            AuthProtocol::Sha256,
            PrivProtocol::Aes128,
            b"privpass123",
            &engine_id,
        )),
    };
    let request = ScopedPdu::new(engine_id.clone(), Vec::new(), get_request(2, &[sys_descr()]));
    let wire = outbound(
        Outbound {
            msg_id: 2,
            msg_max_size: 65507,
            reportable: true,
            level: SecurityLevel::AuthPriv,
            engine_boots: engine.engine_boots,
            engine_time: engine.estimated_time(1000),
            salt: 0x0123456789ABCDEF,
        },
        &engine.engine_id,
        &user,
        &request,
    )
    .unwrap();
    assert_eq!(extract_request_id(&wire), Some(2));

    // the agent holds the same keys and finds the request
    let got = inbound(&wire, &user, Some(&engine), 1000).unwrap();
    assert_eq!(got.scoped_pdu, request);
    assert_eq!(got.global_data.msg_id, 2);
    assert_eq!(got.security_params.engine_id, engine_id);
    assert_eq!((got.security_params.engine_boots, got.security_params.engine_time), (3, 12345));
    assert_eq!(got.security_params.auth_params.len(), 24);
    assert_eq!(got.security_params.priv_params, vec![0x01, 0x23, 0x45, 0x67, 0x89, 0xAB, 0xCD, 0xEF]);

    // and answers with the requested binding
    let answer = ScopedPdu::new(
        engine_id.clone(),
        Vec::new(),
        Pdu::new(PduType::Response, 2, vec![VarBind::new(sys_descr(), Value::OctetString(b"Linux".to_vec()))]),
    );
    let back = outbound(
        Outbound {
            msg_id: 2,
            msg_max_size: 65507,
            reportable: false,
            level: SecurityLevel::AuthPriv,
            engine_boots: 3,
            engine_time: 12346,
            salt: 77,
        },
        &engine_id,
        &user,
        &answer,
    )
    .unwrap();
    let response = inbound(&back, &user, Some(&engine), 1001).unwrap();
    assert_eq!(
        check_response(Version::V3, 2, Version::V3, &response.scoped_pdu.pdu, None),
        Ok(vec![VarBind::new(sys_descr(), Value::OctetString(b"Linux".to_vec()))])
    );
}

/// Pseudo-random octets from a linear congruential generator.
fn noise(seed: u64, len: usize) -> Vec<u8> {
    let mut state = seed;
    let mut out = Vec::with_capacity(len);
    for _ in 0..len {
        state = state.wrapping_mul(6364136223846793005).wrapping_add(1442695040888963407);
        out.push((state >> 56) as u8);
    }
    out
}

#[test]
fn decoders_take_any_octets() {
    let sample = CommunityMessage::new(
        Version::V2c,
        b"public".to_vec(),
        get_request(42, &[sys_descr()]),
    )
    .encode_vec();
    for seed in 0..400u64 {
        let len = (seed % 48) as usize;
        let data = noise(seed, len);
        let _ = Oid::from_ber(&data);
        let _ = CommunityMessage::decode_slice(&data);
        let _ = V3Message::decode(&data);
        let _ = extract_request_id(&data);
        if let Ok(text) = std::str::from_utf8(&data) {
            let _ = Oid::parse(text);
        }
        // A valid message with one octet changed.
        let mut bent = sample.clone();
        let at = (seed as usize) % bent.len();
        bent[at] ^= (seed >> 3) as u8 | 1;
        match CommunityMessage::decode_slice(&bent) {
            Ok(message) => {
                let again = CommunityMessage::decode_slice(&message.encode_vec());
                assert_eq!(again, Ok(message));
            }
            Err(Error::Decode { offset, .. }) => assert!(offset <= bent.len()),
            Err(other) => panic!("a decoder gave {:?}", other),
        }
    }
}
